//! The `navi list` table.

use vstd::prelude::*;
use vstd::string::*;

use crate::output::{painted, push_painted, Paint};
use crate::text::{decimal, join_parts, push_char, push_decimal, push_spaces, spaces};
use crate::types::{
    elapsed_seconds, elapsed_whole_seconds, Timestamp, WorkspaceDiffSnapshot, WorkspaceDiffStatus, WorkspaceFreshnessStatus, WorkspaceListEntry, WorkspaceListStatus,
    WorkspacePathState,
};

verus! {

/// Length of `s` in UTF-8 bytes, as `str::len` reports it.
pub open spec fn byte_len(s: Seq<char>) -> nat {
    vstd::utf8::encode_utf8(s).len()
}

/// Calls `str::len`: the length of `s` in UTF-8 bytes, which always fits
/// in `usize`.
#[verifier::external_body]
pub(crate) fn utf8_len(s: &str) -> (r: usize)
    ensures
        r as nat == byte_len(s@),
{
    s.len()
}

/// The paints used by the workspace table.
#[derive(Debug)]
pub struct TablePalette {
    /// Column headers.
    pub header: Paint,
    /// The current workspace's name.
    pub current: Paint,
    /// Commit identifiers.
    pub meta: Paint,
    /// The `ok` badge.
    pub ok_badge: Paint,
    /// The `inferred` badge, including any hyperlink around it.
    pub inferred_badge: Paint,
    /// The `missing` badge.
    pub missing_badge: Paint,
    /// The `stale` badge.
    pub stale_badge: Paint,
    /// The `jj-only` badge.
    pub jj_only_badge: Paint,
    /// The `not-current` badge.
    pub not_current_badge: Paint,
    /// Inferred paths.
    pub inferred_path: Paint,
    /// Missing paths.
    pub missing_path: Paint,
    /// Stale paths.
    pub stale_path: Paint,
    /// Changed-file counts.
    pub diff_files: Paint,
    /// Insertion counts.
    pub diff_insertions: Paint,
    /// Deletion counts.
    pub diff_deletions: Paint,
}

/// Every paint of a table palette is empty.
pub open spec fn paint_is_plain(p: Paint) -> bool {
    p.open@.len() == 0 && p.close@.len() == 0
}

impl TablePalette {
    /// A palette without colors.
    pub fn plain() -> (r: TablePalette)
        ensures
            r.is_plain(),
    {
        TablePalette {
            header: Paint::plain(),
            current: Paint::plain(),
            meta: Paint::plain(),
            ok_badge: Paint::plain(),
            inferred_badge: Paint::plain(),
            missing_badge: Paint::plain(),
            stale_badge: Paint::plain(),
            jj_only_badge: Paint::plain(),
            not_current_badge: Paint::plain(),
            inferred_path: Paint::plain(),
            missing_path: Paint::plain(),
            stale_path: Paint::plain(),
            diff_files: Paint::plain(),
            diff_insertions: Paint::plain(),
            diff_deletions: Paint::plain(),
        }
    }

    /// Every paint is empty.
    pub open spec fn is_plain(self) -> bool {
        &&& paint_is_plain(self.header)
        &&& paint_is_plain(self.current)
        &&& paint_is_plain(self.meta)
        &&& paint_is_plain(self.ok_badge)
        &&& paint_is_plain(self.inferred_badge)
        &&& paint_is_plain(self.missing_badge)
        &&& paint_is_plain(self.stale_badge)
        &&& paint_is_plain(self.jj_only_badge)
        &&& paint_is_plain(self.not_current_badge)
        &&& paint_is_plain(self.inferred_path)
        &&& paint_is_plain(self.missing_path)
        &&& paint_is_plain(self.stale_path)
        &&& paint_is_plain(self.diff_files)
        &&& paint_is_plain(self.diff_insertions)
        &&& paint_is_plain(self.diff_deletions)
    }

    /// The badge paint of a status.
    pub open spec fn status_paint(self, status: WorkspaceListStatus) -> Paint {
        match status {
            WorkspaceListStatus::Healthy => self.ok_badge,
            WorkspaceListStatus::Inferred => self.inferred_badge,
            WorkspaceListStatus::Missing => self.missing_badge,
            WorkspaceListStatus::Stale => self.stale_badge,
            WorkspaceListStatus::JjOnly => self.jj_only_badge,
            WorkspaceListStatus::NotCurrent => self.not_current_badge,
        }
    }

    fn status_paint_of(&self, status: WorkspaceListStatus) -> (r: &Paint)
        ensures
            *r == self.status_paint(status),
    {
        match status {
            WorkspaceListStatus::Healthy => &self.ok_badge,
            WorkspaceListStatus::Inferred => &self.inferred_badge,
            WorkspaceListStatus::Missing => &self.missing_badge,
            WorkspaceListStatus::Stale => &self.stale_badge,
            WorkspaceListStatus::JjOnly => &self.jj_only_badge,
            WorkspaceListStatus::NotCurrent => &self.not_current_badge,
        }
    }
}

/// `[ label ]` for a status.
pub open spec fn badge_label(status: WorkspaceListStatus) -> Seq<char> {
    "[ "@ + status.spec_label() + " ]"@
}

/// The status cell without colors.
pub open spec fn status_plain_text(statuses: Seq<WorkspaceListStatus>) -> Seq<char> {
    join_parts(statuses.map_values(|s: WorkspaceListStatus| badge_label(s)), " "@)
}

/// The status cell with colors.
pub open spec fn status_styled_text(palette: TablePalette, statuses: Seq<WorkspaceListStatus>) -> Seq<char> {
    join_parts(
        statuses.map_values(|s: WorkspaceListStatus| painted(palette.status_paint(s), badge_label(s))),
        " "@,
    )
}

/// Render the status cell, colored and plain.
fn status_cells(palette: &TablePalette, statuses: &Vec<WorkspaceListStatus>) -> (r: (String, String))
    ensures
        r.0@ == status_styled_text(*palette, statuses@),
        r.1@ == status_plain_text(statuses@),
{
    let ghost styled_parts = statuses@.map_values(
        |s: WorkspaceListStatus| painted(palette.status_paint(s), badge_label(s)),
    );
    let ghost plain_parts = statuses@.map_values(|s: WorkspaceListStatus| badge_label(s));
    let mut styled = String::new();
    let mut plain = String::new();
    let mut i: usize = 0;
    while i < statuses.len()
        invariant
            i <= statuses.len(),
            styled_parts == statuses@.map_values(
                |s: WorkspaceListStatus| painted(palette.status_paint(s), badge_label(s)),
            ),
            plain_parts == statuses@.map_values(|s: WorkspaceListStatus| badge_label(s)),
            styled@ == join_parts(styled_parts.take(i as int), " "@),
            plain@ == join_parts(plain_parts.take(i as int), " "@),
        decreases statuses.len() - i,
    {
        assert(styled_parts.take(i + 1).drop_last() =~= styled_parts.take(i as int));
        assert(plain_parts.take(i + 1).drop_last() =~= plain_parts.take(i as int));
        if i > 0 {
            styled.append(" ");
            plain.append(" ");
        }
        let status = statuses[i];
        let paint = palette.status_paint_of(status);
        styled.append(paint.open.as_str());
        styled.append("[ ");
        styled.append(status.label());
        styled.append(" ]");
        styled.append(paint.close.as_str());
        plain.append("[ ");
        plain.append(status.label());
        plain.append(" ]");
        i += 1;
    }
    assert(styled_parts.take(i as int) =~= styled_parts);
    assert(plain_parts.take(i as int) =~= plain_parts);
    (styled, plain)
}

/// A count that is shown as zero when unknown.
pub open spec fn count_or_zero(c: Option<u32>) -> nat {
    match c {
        Some(v) => v as nat,
        None => 0,
    }
}

/// The diff cell without colors.
pub open spec fn diff_plain_text(diff: WorkspaceDiffSnapshot) -> Seq<char> {
    let f = count_or_zero(diff.files_changed);
    let i = count_or_zero(diff.insertions);
    let d = count_or_zero(diff.deletions);
    if diff.status == WorkspaceDiffStatus::Unknown {
        "unknown"@
    } else if f == 0 && i == 0 && d == 0 {
        "0"@
    } else {
        decimal(f) + "f +"@ + decimal(i) + " -"@ + decimal(d)
    }
}

/// The diff cell with colors.
pub open spec fn diff_styled_text(palette: TablePalette, diff: WorkspaceDiffSnapshot) -> Seq<char> {
    let f = count_or_zero(diff.files_changed);
    let i = count_or_zero(diff.insertions);
    let d = count_or_zero(diff.deletions);
    if diff.status == WorkspaceDiffStatus::Unknown || diff_plain_text(diff) == "0"@ {
        diff_plain_text(diff)
    } else {
        painted(palette.diff_files, decimal(f) + "f"@) + " "@ + painted(
            palette.diff_insertions,
            "+"@ + decimal(i),
        ) + " "@ + painted(palette.diff_deletions, "-"@ + decimal(d))
    }
}

fn unwrap_count(c: Option<u32>) -> (r: u64)
    ensures
        r == count_or_zero(c),
{
    match c {
        Some(v) => v as u64,
        None => 0,
    }
}

/// Render the diff cell without colors.
pub fn render_diff_plain(diff: &WorkspaceDiffSnapshot) -> (r: String)
    ensures
        r@ == diff_plain_text(*diff),
{
    let mut out = String::new();
    let f = unwrap_count(diff.files_changed);
    let i = unwrap_count(diff.insertions);
    let d = unwrap_count(diff.deletions);
    if diff.status == WorkspaceDiffStatus::Unknown {
        out.append("unknown");
    } else if f == 0 && i == 0 && d == 0 {
        out.append("0");
    } else {
        push_decimal(&mut out, f);
        out.append("f +");
        push_decimal(&mut out, i);
        out.append(" -");
        push_decimal(&mut out, d);
        assert(out@ =~= diff_plain_text(*diff));
    }
    out
}

/// Render the diff cell with colors.
fn render_diff_styled(palette: &TablePalette, diff: &WorkspaceDiffSnapshot) -> (r: String)
    ensures
        r@ == diff_styled_text(*palette, *diff),
{
    let plain = render_diff_plain(diff);
    let f = unwrap_count(diff.files_changed);
    let i = unwrap_count(diff.insertions);
    let d = unwrap_count(diff.deletions);
    proof {
        reveal_strlit("0");
        reveal_strlit("unknown");
        reveal_strlit("f +");
        if f != 0 || i != 0 || d != 0 {
            if diff.status != WorkspaceDiffStatus::Unknown {
                assert(plain@.len() >= 3);
            }
        }
    }
    if diff.status == WorkspaceDiffStatus::Unknown || (f == 0 && i == 0 && d == 0) {
        return plain;
    }
    let mut out = String::new();
    let mut files = String::new();
    push_decimal(&mut files, f);
    files.append("f");
    push_painted(&mut out, &palette.diff_files, files.as_str());
    out.append(" ");
    let mut ins = String::new();
    ins.append("+");
    push_decimal(&mut ins, i);
    push_painted(&mut out, &palette.diff_insertions, ins.as_str());
    out.append(" ");
    let mut del = String::new();
    del.append("-");
    push_decimal(&mut del, d);
    push_painted(&mut out, &palette.diff_deletions, del.as_str());
    assert(out@ =~= diff_styled_text(*palette, *diff));
    out
}

/// The path cell with colors.
pub open spec fn path_styled_text(palette: TablePalette, path: Seq<char>, state: WorkspacePathState) -> Seq<char> {
    match state {
        WorkspacePathState::Confirmed => path,
        WorkspacePathState::Inferred => painted(palette.inferred_path, path),
        WorkspacePathState::Missing => painted(palette.missing_path, path),
        WorkspacePathState::Stale => painted(palette.stale_path, path),
    }
}

fn render_path_styled(palette: &TablePalette, path: &str, state: WorkspacePathState) -> (r: String)
    ensures
        r@ == path_styled_text(*palette, path@, state),
{
    let mut out = String::new();
    match state {
        WorkspacePathState::Confirmed => out.append(path),
        WorkspacePathState::Inferred => push_painted(&mut out, &palette.inferred_path, path),
        WorkspacePathState::Missing => push_painted(&mut out, &palette.missing_path, path),
        WorkspacePathState::Stale => push_painted(&mut out, &palette.stale_path, path),
    }
    out
}

/// The compact age of something created `elapsed` seconds ago.
pub open spec fn age_from_elapsed(elapsed: int) -> Seq<char> {
    let seconds = if elapsed > 0 { elapsed } else { 0 };
    let minutes = seconds / 60;
    let hours = minutes / 60;
    let days = hours / 24;
    let years = days / 365;
    if years > 0 {
        decimal(years as nat) + "y"@
    } else if days > 0 {
        decimal(days as nat) + "d"@
    } else if hours > 0 {
        decimal(hours as nat) + "h"@
    } else {
        decimal((if minutes > 1 { minutes } else { 1 }) as nat) + "m"@
    }
}

/// The age cell.
pub open spec fn age_text(created_at: Option<Timestamp>, now: Timestamp) -> Seq<char> {
    match created_at {
        Some(c) => age_from_elapsed(elapsed_seconds(c, now)),
        None => "-"@,
    }
}

/// Render the compact age of something created `elapsed` seconds ago.
pub fn format_age_from_elapsed(elapsed: i128) -> (r: String)
    requires
        elapsed <= u64::MAX + 5,
    ensures
        r@ == age_from_elapsed(elapsed as int),
{
    let seconds: i128 = if elapsed > 0 {
        elapsed
    } else {
        0
    };
    let minutes = seconds / 60;
    let hours = minutes / 60;
    let days = hours / 24;
    let years = days / 365;
    let mut out = String::new();
    if years > 0 {
        push_decimal(&mut out, years as u64);
        out.append("y");
    } else if days > 0 {
        push_decimal(&mut out, days as u64);
        out.append("d");
    } else if hours > 0 {
        push_decimal(&mut out, hours as u64);
        out.append("h");
    } else {
        push_decimal(
            &mut out,
            if minutes > 1 {
                minutes as u64
            } else {
                1
            },
        );
        out.append("m");
    }
    out
}

/// Render the age cell.
pub fn render_age(created_at: Option<Timestamp>, now: Timestamp) -> (r: String)
    ensures
        r@ == age_text(created_at, now),
{
    match created_at {
        Some(c) => format_age_from_elapsed(elapsed_whole_seconds(c, now)),
        None => {
            let mut out = String::new();
            out.append("-");
            out
        },
    }
}

/// `value` cut to `width` characters, ending in `...` when cut.
pub open spec fn truncate_text(value: Seq<char>, width: Option<nat>) -> Seq<char> {
    match width {
        None => value,
        Some(w) => if value.len() <= w {
            value
        } else if w <= 3 {
            Seq::new(w, |i: int| '.')
        } else {
            value.take(w - 3) + "..."@
        },
    }
}

/// Cut `value` to `width` characters.
pub fn truncate_to_width(value: &str, width: Option<usize>) -> (r: String)
    ensures
        r@ == truncate_text(
            value@,
            match width {
                Some(w) => Some(w as nat),
                None => None,
            },
        ),
{
    let mut out = String::new();
    match width {
        None => {
            out.append(value);
        },
        Some(w) => {
            let v = crate::text::chars_of(value);
            if v.len() <= w {
                out.append(value);
            } else if w <= 3 {
                let mut i: usize = 0;
                while i < w
                    invariant
                        i <= w,
                        out@ == Seq::new(i as nat, |j: int| '.'),
                    decreases w - i,
                {
                    push_char(&mut out, '.');
                    i += 1;
                    assert(out@ =~= Seq::new(i as nat, |j: int| '.'));
                }
            } else {
                crate::text::append_range(&mut out, &v, 0, w - 3);
                out.append("...");
                assert(out@ =~= v@.take(w - 3) + "..."@);
            }
        },
    }
    out
}


/// The name cell with colors.
pub open spec fn name_cell_text(palette: TablePalette, e: WorkspaceListEntry) -> Seq<char> {
    if e.is_current {
        painted(palette.current, e.name@)
    } else {
        e.name@
    }
}

/// Visible widths, in bytes, of an entry's cells: name, status, diff, path,
/// commit, age.
pub open spec fn cell_widths(e: WorkspaceListEntry, now: Timestamp) -> Seq<nat> {
    seq![
        byte_len(e.name@),
        byte_len(status_plain_text(e.statuses@)),
        byte_len(diff_plain_text(e.diff)),
        byte_len(e.path@),
        byte_len(e.commit_id@),
        byte_len(age_text(e.age.created_at, now)),
    ]
}

/// Header widths: `workspace`, `status`, `diff`, `path`, `commit`, `age`.
pub open spec fn header_widths() -> Seq<nat> {
    seq![9, 6, 4, 4, 6, 3]
}

/// Width of column `k`: its header or its widest cell.
pub open spec fn column_width(es: Seq<WorkspaceListEntry>, k: int, now: Timestamp) -> nat
    decreases es.len(),
{
    if es.len() == 0 {
        header_widths()[k]
    } else {
        let rest = column_width(es.drop_last(), k, now);
        let w = cell_widths(es.last(), now)[k];
        if rest >= w {
            rest
        } else {
            w
        }
    }
}

/// `n - m`, or zero.
pub open spec fn sat_sub(n: int, m: int) -> nat {
    if n > m {
        (n - m) as nat
    } else {
        0
    }
}

/// All column widths.
pub open spec fn column_widths(es: Seq<WorkspaceListEntry>, now: Timestamp) -> Seq<nat> {
    seq![
        column_width(es, 0, now),
        column_width(es, 1, now),
        column_width(es, 2, now),
        column_width(es, 3, now),
        column_width(es, 4, now),
        column_width(es, 5, now),
    ]
}

/// A cell padded with spaces to a column width.
pub open spec fn padded(cell: Seq<char>, visible: nat, width: nat) -> Seq<char> {
    cell + spaces(sat_sub(width as int, visible as int))
}

/// The width left for messages, when the terminal width is known.
pub open spec fn message_width(es: Seq<WorkspaceListEntry>, terminal: Option<usize>, now: Timestamp) -> Option<nat> {
    match terminal {
        None => None,
        Some(t) => {
            let fixed = 3 + column_width(es, 0, now) + column_width(es, 1, now) + column_width(es, 2, now)
                + column_width(es, 3, now) + column_width(es, 4, now) + column_width(es, 5, now) + 14;
            let left = sat_sub(t as int, fixed as int);
            Some(if left >= 10 { left } else { 10 })
        },
    }
}

/// The first half of the header line.
pub open spec fn header_head_text(palette: TablePalette, w: Seq<nat>) -> Seq<char> {
    painted(palette.header, "cur"@) + "  "@ + painted(palette.header, padded("workspace"@, 9, w[0]))
        + "  "@ + painted(palette.header, padded("status"@, 6, w[1])) + "  "@ + painted(
        palette.header,
        padded("diff"@, 4, w[2]),
    ) + "  "@
}

/// The second half of the header line.
pub open spec fn header_tail_text(palette: TablePalette, w: Seq<nat>, mw: Option<nat>) -> Seq<char> {
    painted(palette.header, padded("path"@, 4, w[3])) + "  "@ + painted(
        palette.header,
        padded("commit"@, 6, w[4]),
    ) + "  "@ + painted(palette.header, padded("age"@, 3, w[5])) + "  "@ + painted(
        palette.header,
        truncate_text("message"@, mw),
    ) + "\n"@
}

/// The table's header line.
pub open spec fn header_line_text(palette: TablePalette, w: Seq<nat>, mw: Option<nat>) -> Seq<char> {
    header_head_text(palette, w) + header_tail_text(palette, w, mw)
}

/// The first cells of a row: marker, name, status and diff.
pub open spec fn row_head_text(
    palette: TablePalette,
    w: Seq<nat>,
    e: WorkspaceListEntry,
    now: Timestamp,
) -> Seq<char> {
    let v = cell_widths(e, now);
    padded(if e.is_current { "@"@ } else { ""@ }, if e.is_current { 1 } else { 0 }, 3) + "  "@
        + padded(name_cell_text(palette, e), v[0], w[0]) + "  "@ + padded(
        status_styled_text(palette, e.statuses@),
        v[1],
        w[1],
    ) + "  "@ + padded(diff_styled_text(palette, e.diff), v[2], w[2]) + "  "@
}

/// The last cells of a row: path, commit, age and message.
pub open spec fn row_tail_text(
    palette: TablePalette,
    w: Seq<nat>,
    mw: Option<nat>,
    e: WorkspaceListEntry,
    now: Timestamp,
) -> Seq<char> {
    let v = cell_widths(e, now);
    padded(path_styled_text(palette, e.path@, e.path_state), v[3], w[3])
        + "  "@ + padded(painted(palette.meta, e.commit_id@), v[4], w[4])
        + "  "@ + padded(age_text(e.age.created_at, now), v[5], w[5]) + "  "@
        + truncate_text(e.message@, mw) + "\n"@
}

/// One table row.
pub open spec fn row_text(
    palette: TablePalette,
    es: Seq<WorkspaceListEntry>,
    e: WorkspaceListEntry,
    terminal: Option<usize>,
    now: Timestamp,
) -> Seq<char> {
    row_head_text(palette, column_widths(es, now), e, now) + row_tail_text(
        palette,
        column_widths(es, now),
        message_width(es, terminal, now),
        e,
        now,
    )
}

/// Rows for `rows`, laid out for the whole table `es`.
pub open spec fn rows_text(
    palette: TablePalette,
    es: Seq<WorkspaceListEntry>,
    rows: Seq<WorkspaceListEntry>,
    terminal: Option<usize>,
    now: Timestamp,
) -> Seq<char>
    decreases rows.len(),
{
    if rows.len() == 0 {
        Seq::empty()
    } else {
        rows_text(palette, es, rows.drop_last(), terminal, now) + row_text(
            palette,
            es,
            rows.last(),
            terminal,
            now,
        )
    }
}

/// The whole table.
pub open spec fn table_text(palette: TablePalette, es: Seq<WorkspaceListEntry>, terminal: Option<usize>, now: Timestamp) -> Seq<char> {
    header_line_text(palette, column_widths(es, now), message_width(es, terminal, now)) + rows_text(
        palette,
        es,
        es,
        terminal,
        now,
    )
}

/// The rendered cells of one row.
struct RowCells {
    name: String,
    status: String,
    diff: String,
    path: String,
    commit: String,
    age: String,
    visible: Vec<usize>,
}

/// The cells of one entry.
fn row_cells(palette: &TablePalette, e: &WorkspaceListEntry, now: Timestamp) -> (r: RowCells)
    ensures
        r.name@ == name_cell_text(*palette, *e),
        r.status@ == status_styled_text(*palette, e.statuses@),
        r.diff@ == diff_styled_text(*palette, e.diff),
        r.path@ == path_styled_text(*palette, e.path@, e.path_state),
        r.commit@ == painted(palette.meta, e.commit_id@),
        r.age@ == age_text(e.age.created_at, now),
        r.visible@.len() == 6,
        forall|k: int| 0 <= k < 6 ==> r.visible@[k] == cell_widths(*e, now)[k],
{
    let mut name = String::new();
    if e.is_current {
        push_painted(&mut name, &palette.current, e.name.as_str());
    } else {
        name.append(e.name.as_str());
    }
    let (status, status_plain) = status_cells(palette, &e.statuses);
    let diff = render_diff_styled(palette, &e.diff);
    let diff_plain = render_diff_plain(&e.diff);
    let path = render_path_styled(palette, e.path.as_str(), e.path_state);
    let mut commit = String::new();
    push_painted(&mut commit, &palette.meta, e.commit_id.as_str());
    let age = render_age(e.age.created_at, now);
    let mut visible: Vec<usize> = Vec::new();
    visible.push(utf8_len(e.name.as_str()));
    visible.push(utf8_len(status_plain.as_str()));
    visible.push(utf8_len(diff_plain.as_str()));
    visible.push(utf8_len(e.path.as_str()));
    visible.push(utf8_len(e.commit_id.as_str()));
    visible.push(utf8_len(age.as_str()));
    RowCells { name, status, diff, path, commit, age, visible }
}

/// Append a cell padded to its column.
fn push_padded(out: &mut String, cell: &str, visible: usize, width: usize)
    ensures
        final(out)@ == old(out)@ + padded(cell@, visible as nat, width as nat),
{
    out.append(cell);
    push_spaces(
        out,
        if width > visible {
            width - visible
        } else {
            0
        },
    );
}

/// Append the first cells of a row.
fn push_row_head(
    out: &mut String,
    palette: &TablePalette,
    e: &WorkspaceListEntry,
    cells: &RowCells,
    widths: &Vec<usize>,
    Ghost(w): Ghost<Seq<nat>>,
    now: Timestamp,
)
    requires
        cells.name@ == name_cell_text(*palette, *e),
        cells.status@ == status_styled_text(*palette, e.statuses@),
        cells.diff@ == diff_styled_text(*palette, e.diff),
        cells.visible@.len() == 6,
        forall|k: int| 0 <= k < 6 ==> cells.visible@[k] == cell_widths(*e, now)[k],
        widths@.len() == 6,
        w.len() == 6,
        forall|k: int| 0 <= k < 6 ==> widths@[k] == w[k],
    ensures
        final(out)@ == old(out)@ + row_head_text(*palette, w, *e, now),
{
    if e.is_current {
        push_padded(out, "@", 1, 3);
    } else {
        push_padded(out, "", 0, 3);
    }
    out.append("  ");
    push_padded(out, cells.name.as_str(), cells.visible[0], widths[0]);
    out.append("  ");
    push_padded(out, cells.status.as_str(), cells.visible[1], widths[1]);
    out.append("  ");
    push_padded(out, cells.diff.as_str(), cells.visible[2], widths[2]);
    out.append("  ");
    proof {
        reveal_strlit("@");
        reveal_strlit("");
    }
    assert(out@ =~= old(out)@ + row_head_text(*palette, w, *e, now));
}

/// Append the last cells of a row.
fn push_row_tail(
    out: &mut String,
    palette: &TablePalette,
    e: &WorkspaceListEntry,
    cells: &RowCells,
    widths: &Vec<usize>,
    width: Option<usize>,
    Ghost(w): Ghost<Seq<nat>>,
    Ghost(mw): Ghost<Option<nat>>,
    now: Timestamp,
)
    requires
        cells.path@ == path_styled_text(*palette, e.path@, e.path_state),
        cells.commit@ == painted(palette.meta, e.commit_id@),
        cells.age@ == age_text(e.age.created_at, now),
        cells.visible@.len() == 6,
        forall|k: int| 0 <= k < 6 ==> cells.visible@[k] == cell_widths(*e, now)[k],
        widths@.len() == 6,
        w.len() == 6,
        forall|k: int| 0 <= k < 6 ==> widths@[k] == w[k],
        width == match mw {
            Some(m) => Some(m as usize),
            None => None,
        },
        mw matches Some(m) ==> m <= usize::MAX,
    ensures
        final(out)@ == old(out)@ + row_tail_text(*palette, w, mw, *e, now),
{
    push_padded(out, cells.path.as_str(), cells.visible[3], widths[3]);
    out.append("  ");
    push_padded(out, cells.commit.as_str(), cells.visible[4], widths[4]);
    out.append("  ");
    push_padded(out, cells.age.as_str(), cells.visible[5], widths[5]);
    out.append("  ");
    let message = truncate_to_width(e.message.as_str(), width);
    out.append(message.as_str());
    out.append("\n");
    assert(out@ =~= old(out)@ + row_tail_text(*palette, w, mw, *e, now));
}


/// Calls `time::OffsetDateTime::now_utc` and returns its Unix timestamp,
/// nanosecond and offset. The moment is the clock's; as `time` documents,
/// it is in UTC and its nanosecond is below one second.
#[verifier::external_body]
pub(crate) fn now_timestamp() -> (r: Timestamp)
    ensures
        r.offset_seconds == 0,
        r.nanosecond < 1_000_000_000,
{
    let now = time::OffsetDateTime::now_utc();
    Timestamp { unix_seconds: now.unix_timestamp(), nanosecond: now.nanosecond(), offset_seconds: now.offset().whole_seconds() }
}

/// Append a header cell padded to its column.
fn push_header_cell(out: &mut String, palette: &TablePalette, label: &str, len: usize, width: usize)
    ensures
        final(out)@ == old(out)@ + painted(palette.header, padded(label@, len as nat, width as nat)),
{
    let mut cell = String::new();
    push_padded(&mut cell, label, len, width);
    push_painted(out, &palette.header, cell.as_str());
}

/// Append the first half of the header line.
fn push_header_head(out: &mut String, palette: &TablePalette, widths: &Vec<usize>, Ghost(w): Ghost<Seq<nat>>)
    requires
        widths@.len() == 6,
        w.len() == 6,
        forall|k: int| 0 <= k < 6 ==> widths@[k] == w[k],
    ensures
        final(out)@ == old(out)@ + header_head_text(*palette, w),
{
    push_painted(out, &palette.header, "cur");
    out.append("  ");
    push_header_cell(out, palette, "workspace", 9, widths[0]);
    out.append("  ");
    push_header_cell(out, palette, "status", 6, widths[1]);
    out.append("  ");
    push_header_cell(out, palette, "diff", 4, widths[2]);
    out.append("  ");
    assert(out@ =~= old(out)@ + header_head_text(*palette, w));
}

/// Append the second half of the header line.
fn push_header_tail(
    out: &mut String,
    palette: &TablePalette,
    widths: &Vec<usize>,
    width: Option<usize>,
    Ghost(w): Ghost<Seq<nat>>,
    Ghost(mw): Ghost<Option<nat>>,
)
    requires
        widths@.len() == 6,
        w.len() == 6,
        forall|k: int| 0 <= k < 6 ==> widths@[k] == w[k],
        width == match mw {
            Some(m) => Some(m as usize),
            None => None,
        },
        mw matches Some(m) ==> m <= usize::MAX,
    ensures
        final(out)@ == old(out)@ + header_tail_text(*palette, w, mw),
{
    push_header_cell(out, palette, "path", 4, widths[3]);
    out.append("  ");
    push_header_cell(out, palette, "commit", 6, widths[4]);
    out.append("  ");
    push_header_cell(out, palette, "age", 3, widths[5]);
    out.append("  ");
    let message = truncate_to_width("message", width);
    push_painted(out, &palette.header, message.as_str());
    out.append("\n");
    assert(out@ =~= old(out)@ + header_tail_text(*palette, w, mw));
}

/// Append the table's header line.
fn push_header(
    out: &mut String,
    palette: &TablePalette,
    widths: &Vec<usize>,
    width: Option<usize>,
    Ghost(w): Ghost<Seq<nat>>,
    Ghost(mw): Ghost<Option<nat>>,
)
    requires
        widths@.len() == 6,
        w.len() == 6,
        forall|k: int| 0 <= k < 6 ==> widths@[k] == w[k],
        width == match mw {
            Some(m) => Some(m as usize),
            None => None,
        },
        mw matches Some(m) ==> m <= usize::MAX,
    ensures
        final(out)@ == old(out)@ + header_line_text(*palette, w, mw),
{
    push_header_head(out, palette, widths, Ghost(w));
    push_header_tail(out, palette, widths, width, Ghost(w), Ghost(mw));
    assert(out@ =~= old(out)@ + header_line_text(*palette, w, mw));
}

/// The width of each column over all entries.
fn compute_widths(palette: &TablePalette, entries: &[WorkspaceListEntry], now: Timestamp) -> (widths: Vec<usize>)
    ensures
        widths@.len() == 6,
        forall|k: int| 0 <= k < 6 ==> widths@[k] == column_widths(entries@, now)[k],
{
    let ghost es = entries@;
    let mut widths: Vec<usize> = Vec::new();
    widths.push(9);
    widths.push(6);
    widths.push(4);
    widths.push(4);
    widths.push(6);
    widths.push(3);
    let mut i: usize = 0;
    assert(es.take(0) =~= Seq::<WorkspaceListEntry>::empty());
    while i < entries.len()
        invariant
            es == entries@,
            i <= entries.len(),
            widths@.len() == 6,
            forall|k: int| 0 <= k < 6 ==> widths@[k] == column_width(es.take(i as int), k, now),
        decreases entries.len() - i,
    {
        let c = row_cells(palette, &entries[i], now);
        let mut k: usize = 0;
        let ghost prev = widths@;
        while k < 6
            invariant
                k <= 6,
                widths@.len() == 6,
                c.visible@.len() == 6,
                forall|m: int| k <= m < 6 ==> widths@[m] == prev[m],
                forall|m: int|
                    0 <= m < k ==> widths@[m] == if prev[m] >= c.visible@[m] {
                        prev[m]
                    } else {
                        c.visible@[m]
                    },
            decreases 6 - k,
        {
            if c.visible[k] > widths[k] {
                widths.set(k, c.visible[k]);
            }
            k += 1;
        }
        proof {
            assert(es.take(i + 1).drop_last() =~= es.take(i as int));
            assert(es.take(i + 1).last() == es[i as int]);
        }
        i += 1;
    }
    assert(es.take(i as int) =~= es);
    widths
}

/// The width left for messages, given the column widths.
fn compute_message_width(
    widths: &Vec<usize>,
    terminal_width: Option<usize>,
    Ghost(es): Ghost<Seq<WorkspaceListEntry>>,
    now: Timestamp,
) -> (r: Option<usize>)
    requires
        widths@.len() == 6,
        forall|k: int| 0 <= k < 6 ==> widths@[k] == column_widths(es, now)[k],
    ensures
        r == match message_width(es, terminal_width, now) {
            Some(m) => Some(m as usize),
            None => None,
        },
        message_width(es, terminal_width, now) matches Some(m) ==> m <= usize::MAX,
{
    let ghost w = column_widths(es, now);
    match terminal_width {
        None => None,
        Some(t) => {
            let mut fixed: usize = 3;
            let mut k: usize = 0;
            while k < 6
                invariant
                    k <= 6,
                    widths@.len() == 6,
                    fixed == if 3 + seq_sum(widths@.take(k as int)) <= usize::MAX {
                        3 + seq_sum(widths@.take(k as int))
                    } else {
                        usize::MAX as int
                    },
                decreases 6 - k,
            {
                assert(widths@.take(k + 1).drop_last() =~= widths@.take(k as int));
                fixed = fixed.saturating_add(widths[k]);
                k += 1;
            }
            fixed = fixed.saturating_add(14);
            let left = t.saturating_sub(fixed);
            proof {
                assert(widths@.take(6) =~= widths@);
                assert(seq_sum(widths@) == w[0] + w[1] + w[2] + w[3] + w[4] + w[5]) by {
                    lemma_seq_sum_six(widths@);
                }
            }
            Some(
                if left >= 10 {
                    left
                } else {
                    10
                },
            )
        },
    }
}

/// Append one row of the table.
fn push_row(
    out: &mut String,
    palette: &TablePalette,
    e: &WorkspaceListEntry,
    widths: &Vec<usize>,
    width: Option<usize>,
    Ghost(es): Ghost<Seq<WorkspaceListEntry>>,
    terminal_width: Option<usize>,
    now: Timestamp,
)
    requires
        widths@.len() == 6,
        forall|k: int| 0 <= k < 6 ==> widths@[k] == column_widths(es, now)[k],
        width == match message_width(es, terminal_width, now) {
            Some(m) => Some(m as usize),
            None => None,
        },
        message_width(es, terminal_width, now) matches Some(m) ==> m <= usize::MAX,
    ensures
        final(out)@ == old(out)@ + row_text(*palette, es, *e, terminal_width, now),
{
    let ghost w = column_widths(es, now);
    let ghost mw = message_width(es, terminal_width, now);
    let c = row_cells(palette, e, now);
    push_row_head(out, palette, e, &c, widths, Ghost(w), now);
    push_row_tail(out, palette, e, &c, widths, width, Ghost(w), Ghost(mw), now);
    assert(out@ =~= old(out)@ + row_text(*palette, es, *e, terminal_width, now));
}

/// Render the workspace table with explicit colors, terminal width and
/// current time (Unix seconds).
pub fn render_workspace_table_styled(
    entries: &[WorkspaceListEntry],
    terminal_width: Option<usize>,
    palette: &TablePalette,
    now: Timestamp,
) -> (r: String)
    ensures
        r@ == table_text(*palette, entries@, terminal_width, now),
{
    let ghost es = entries@;
    let widths = compute_widths(palette, entries, now);
    let width = compute_message_width(&widths, terminal_width, Ghost(es), now);
    let ghost w = column_widths(es, now);
    let ghost mw = message_width(es, terminal_width, now);
    let mut out = String::new();
    push_header(&mut out, palette, &widths, width, Ghost(w), Ghost(mw));
    let ghost head = out@;
    let mut i: usize = 0;
    assert(es.take(0) =~= Seq::<WorkspaceListEntry>::empty());
    while i < entries.len()
        invariant
            es == entries@,
            i <= entries.len(),
            widths@.len() == 6,
            forall|k: int| 0 <= k < 6 ==> widths@[k] == column_widths(es, now)[k],
            width == match message_width(es, terminal_width, now) {
                Some(m) => Some(m as usize),
                None => None,
            },
            message_width(es, terminal_width, now) matches Some(m) ==> m <= usize::MAX,
            out@ == head + rows_text(*palette, es, es.take(i as int), terminal_width, now),
        decreases entries.len() - i,
    {
        push_row(&mut out, palette, &entries[i], &widths, width, Ghost(es), terminal_width, now);
        proof {
            assert(es.take(i + 1).drop_last() =~= es.take(i as int));
            assert(es.take(i + 1).last() == es[i as int]);
        }
        i += 1;
    }
    assert(es.take(i as int) =~= es);
    out
}

/// Sum of a sequence of naturals.
pub open spec fn seq_sum(s: Seq<usize>) -> int
    decreases s.len(),
{
    if s.len() == 0 {
        0
    } else {
        seq_sum(s.drop_last()) + s.last()
    }
}

proof fn lemma_seq_sum_six(s: Seq<usize>)
    requires
        s.len() == 6,
    ensures
        seq_sum(s) == s[0] + s[1] + s[2] + s[3] + s[4] + s[5],
{
    reveal_with_fuel(seq_sum, 7);
    assert(s.drop_last().drop_last().drop_last().drop_last().drop_last().drop_last() =~= Seq::<usize>::empty());
}

/// Render the workspace table without colors for a terminal of the given
/// width, ages measured against the clock.
pub fn render_workspace_table_with_width(
    entries: &[WorkspaceListEntry],
    terminal_width: Option<usize>,
) -> (r: String)
    ensures
        exists|p: TablePalette, now: Timestamp|
            p.is_plain() && r@ == table_text(p, entries@, terminal_width, now),
{
    let palette = TablePalette::plain();
    let now = now_timestamp();
    render_workspace_table_styled(entries, terminal_width, &palette, now)
}

/// The warning for a workspace that could not be made current: its name,
/// and the reason when one is known.
pub open spec fn stale_warning_text(e: WorkspaceListEntry) -> Seq<char> {
    "warning: workspace '"@ + e.name@ + "' could not be made current"@ + match e.freshness.reason {
        Some(r) => ": "@ + r@,
        None => Seq::empty(),
    }
}

/// Whether a workspace could not be made current before listing.
pub open spec fn not_made_current(e: WorkspaceListEntry) -> bool {
    e.freshness.status is Failed || e.freshness.status is TimedOut
}

/// The entries that could not be made current, in order.
pub open spec fn stale_entries(s: Seq<WorkspaceListEntry>) -> Seq<WorkspaceListEntry>
    decreases s.len(),
{
    if s.len() == 0 {
        Seq::empty()
    } else if not_made_current(s.last()) {
        stale_entries(s.drop_last()).push(s.last())
    } else {
        stale_entries(s.drop_last())
    }
}

/// The warnings `list` prints for the workspaces that could not be made
/// current, in order.
pub fn stale_workspace_warnings(entries: &[WorkspaceListEntry]) -> (r: Vec<String>)
    ensures
        r@.len() == stale_entries(entries@).len(),
        forall|k: int| 0 <= k < r@.len() ==> (#[trigger] r@[k])@ == stale_warning_text(stale_entries(entries@)[k]),
{
    let mut out: Vec<String> = Vec::new();
    let mut i: usize = 0;
    while i < entries.len()
        invariant
            i <= entries@.len(),
            out@.len() == stale_entries(entries@.take(i as int)).len(),
            forall|k: int| 0 <= k < out@.len() ==> (#[trigger] out@[k])@ == stale_warning_text(
                stale_entries(entries@.take(i as int))[k],
            ),
        decreases entries@.len() - i,
    {
        let e = &entries[i];
        assert(entries@.take(i + 1).drop_last() =~= entries@.take(i as int));
        assert(entries@.take(i + 1).last() == entries@[i as int]);
        let failed = match e.freshness.status {
            WorkspaceFreshnessStatus::Failed | WorkspaceFreshnessStatus::TimedOut => true,
            _ => false,
        };
        if failed {
            let mut m = String::new();
            m.append("warning: workspace '");
            m.append(e.name.as_str());
            m.append("' could not be made current");
            match &e.freshness.reason {
                Some(r) => {
                    m.append(": ");
                    m.append(r.as_str());
                },
                None => {},
            }
            assert(m@ =~= stale_warning_text(entries@[i as int]));
            out.push(m);
        }
        i += 1;
    }
    assert(entries@.take(i as int) =~= entries@);
    out
}

/// The terminal width `COLUMNS` gives: a positive number.
pub open spec fn columns_width(value: Option<Seq<char>>) -> Option<usize> {
    match value {
        Some(t) => match crate::completion::usize_text(t) {
            Some(w) => if w > 0 { Some(w) } else { None },
            None => None,
        },
        None => None,
    }
}

/// Read the terminal width from the value of `COLUMNS`.
pub fn terminal_width_from_columns(value: Option<&str>) -> (r: Option<usize>)
    ensures
        r == columns_width(match value { Some(t) => Some(t@), None => None }),
{
    let t = match value {
        Some(t) => t,
        None => return None,
    };
    let w = crate::completion::parse_usize(t);
    match w {
        Some(x) => if x > 0 { Some(x) } else { None },
        None => None,
    }
}

} // verus!
