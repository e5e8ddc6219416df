//! Changelog sections built from release metadata.

use vstd::prelude::*;
use vstd::string::*;

use super::error::ToolError;
use super::{
    changelog_name_of, pull_requests_problem, validate_changelog_prs, validation_outcome,
    PullRequestMetadata, ReleaseLabel,
};
use crate::text::{
    append_range, chars_of, decimal, find_seq_from, first_occurrence, join_parts, join_strings,
    push_decimal, trim, trim_end, trim_end_ws, trim_start, trim_start_ws, trim_ws, views_of,
    char_is_whitespace, contains_seq, lemma_first_occurrence, lemma_whitespace_chars, occurs_at,
};

verus! {

/// The changelog line of one pull request.
pub open spec fn entry_line(pr: PullRequestMetadata) -> Seq<char> {
    "- "@ + trim_ws(pr.title@) + " (#"@ + decimal(pr.number as nat) + ", "@ + changelog_name_of(
        pr.author.login@,
        pr.author.display_name@,
    ) + ")"@
}

/// The changelog lines of the pull requests with `label`, in order.
pub open spec fn entries_with_label(prs: Seq<PullRequestMetadata>, label: ReleaseLabel) -> Seq<Seq<char>>
    decreases prs.len(),
{
    if prs.len() == 0 {
        Seq::empty()
    } else {
        entries_with_label(prs.drop_last(), label) + if prs.last().release == label {
            seq![entry_line(prs.last())]
        } else {
            Seq::empty()
        }
    }
}

/// The heading text of a user-facing label.
pub open spec fn heading_text(label: ReleaseLabel) -> Seq<char> {
    match label.spec_heading() {
        Some(h) => h,
        None => Seq::empty(),
    }
}

/// The lines of one label's section: nothing when no pull request has the
/// label, else its heading, a blank line, the entries and a blank line.
pub open spec fn label_section(prs: Seq<PullRequestMetadata>, label: ReleaseLabel) -> Seq<Seq<char>> {
    if entries_with_label(prs, label).len() == 0 {
        Seq::empty()
    } else {
        seq!["### "@ + heading_text(label), ""@] + entries_with_label(prs, label) + seq![""@]
    }
}

/// The changelog body: sections for major, minor and patch changes.
pub open spec fn changelog_body_text(prs: Seq<PullRequestMetadata>) -> Seq<char> {
    trim_end_ws(
        join_parts(
            label_section(prs, ReleaseLabel::Major) + label_section(prs, ReleaseLabel::Minor)
                + label_section(prs, ReleaseLabel::Patch),
            "\n"@,
        ),
    )
}

/// The heading line of a release section.
pub open spec fn section_heading(version: Seq<char>, date: Seq<char>) -> Seq<char> {
    "## v"@ + version + " - "@ + date
}

/// A release section: its heading and, when there is one, a blank line and
/// the body.
pub open spec fn changelog_section_text(version: Seq<char>, date: Seq<char>, prs: Seq<PullRequestMetadata>) -> Seq<char> {
    let body = changelog_body_text(prs);
    trim_end_ws(
        if body.len() == 0 {
            section_heading(version, date)
        } else {
            section_heading(version, date) + "\n"@ + ""@ + "\n"@ + body
        },
    )
}

/// The changelog line of one pull request.
fn changelog_entry_line(pr: &PullRequestMetadata) -> (r: String)
    ensures
        r@ == entry_line(*pr),
{
    let mut line = String::new();
    line.append("- ");
    let title = trim(pr.title.as_str());
    line.append(title.as_str());
    line.append(" (#");
    push_decimal(&mut line, pr.number);
    line.append(", ");
    let name = pr.author.changelog_name();
    line.append(name.as_str());
    line.append(")");
    line
}

fn push_line(lines: &mut Vec<String>, line: String)
    ensures
        views_of(final(lines)@) == views_of(old(lines)@).push(line@),
{
    lines.push(line);
    assert(views_of(lines@) =~= views_of(old(lines)@).push(line@));
}

fn push_text_line(lines: &mut Vec<String>, line: &str)
    ensures
        views_of(final(lines)@) == views_of(old(lines)@).push(line@),
{
    push_line(lines, line.to_owned());
}

/// Append the section of one label.
fn push_label_section(lines: &mut Vec<String>, prs: &[PullRequestMetadata], label: ReleaseLabel)
    requires
        label != ReleaseLabel::NoRelease,
    ensures
        views_of(final(lines)@) == views_of(old(lines)@) + label_section(prs@, label),
{
    let mut entries: Vec<String> = Vec::new();
    let mut i: usize = 0;
    assert(views_of(entries@) =~= entries_with_label(prs@.take(0), label));
    while i < prs.len()
        invariant
            i <= prs@.len(),
            views_of(entries@) == entries_with_label(prs@.take(i as int), label),
        decreases prs@.len() - i,
    {
        assert(prs@.take(i + 1).drop_last() =~= prs@.take(i as int));
        if prs[i].release == label {
            let line = changelog_entry_line(&prs[i]);
            push_line(&mut entries, line);
        }
        i += 1;
        assert(views_of(entries@) =~= entries_with_label(prs@.take(i as int), label));
    }
    assert(prs@.take(i as int) =~= prs@);
    if entries.len() == 0 {
        assert(views_of(lines@) =~= views_of(lines@) + label_section(prs@, label));
        return;
    }
    let heading = match label.heading() {
        Some(h) => h,
        None => "",
    };
    let mut head = String::new();
    head.append("### ");
    head.append(heading);
    push_line(lines, head);
    push_text_line(lines, "");
    let ghost start = views_of(lines@);
    let mut k: usize = 0;
    while k < entries.len()
        invariant
            k <= entries@.len(),
            views_of(lines@) == start + views_of(entries@).take(k as int),
        decreases entries@.len() - k,
    {
        push_line(lines, entries[k].clone());
        k += 1;
        assert(views_of(entries@).take(k as int) =~= views_of(entries@).take(k - 1).push(entries@[k - 1]@));
    }
    assert(views_of(entries@).take(k as int) =~= views_of(entries@));
    push_text_line(lines, "");
    assert(views_of(lines@) =~= views_of(old(lines)@) + label_section(prs@, label));
}

/// The changelog body for `prs`, grouped under major, minor and patch
/// headings; fails as `validate_changelog_prs` does.
pub fn build_changelog_body(prs: &[PullRequestMetadata]) -> (r: Result<String, ToolError>)
    ensures
        pull_requests_problem(prs@, false) is Some ==> validation_outcome(
            match r {
                Ok(_) => Ok(()),
                Err(e) => Err(e),
            },
            pull_requests_problem(prs@, false),
        ),
        pull_requests_problem(prs@, false) is None ==> (r matches Ok(body) && body@
            == changelog_body_text(prs@)),
{
    match validate_changelog_prs(prs) {
        Err(e) => return Err(e),
        Ok(()) => {},
    }
    let mut lines: Vec<String> = Vec::new();
    push_label_section(&mut lines, prs, ReleaseLabel::Major);
    push_label_section(&mut lines, prs, ReleaseLabel::Minor);
    push_label_section(&mut lines, prs, ReleaseLabel::Patch);
    let joined = join_strings(&lines, "\n");
    let body = trim_end(joined.as_str());
    assert(views_of(lines@) =~= label_section(prs@, ReleaseLabel::Major) + label_section(
        prs@,
        ReleaseLabel::Minor,
    ) + label_section(prs@, ReleaseLabel::Patch));
    Ok(body)
}

/// The changelog section of a release: `## v<version> - <date>`, then the
/// body; fails as `validate_changelog_prs` does.
pub fn build_changelog_section(version: &str, date: &str, prs: &[PullRequestMetadata]) -> (r: Result<String, ToolError>)
    ensures
        pull_requests_problem(prs@, false) is Some ==> validation_outcome(
            match r {
                Ok(_) => Ok(()),
                Err(e) => Err(e),
            },
            pull_requests_problem(prs@, false),
        ),
        pull_requests_problem(prs@, false) is None ==> (r matches Ok(section) && section@
            == changelog_section_text(version@, date@, prs@)),
{
    match validate_changelog_prs(prs) {
        Err(e) => return Err(e),
        Ok(()) => {},
    }
    let body = match build_changelog_body(prs) {
        Err(e) => return Err(e),
        Ok(b) => b,
    };
    let mut text = String::new();
    text.append("## v");
    text.append(version);
    text.append(" - ");
    text.append(date);
    if body.as_str().unicode_len() != 0 {
        text.append("\n");
        text.append("");
        text.append("\n");
        text.append(body.as_str());
    }
    proof {
        reveal_strlit("");
    }
    Ok(trim_end(text.as_str()))
}

/// The text of the entry for `version` in a changelog: from its heading to
/// the next `## ` heading, without trailing whitespace.
pub open spec fn entry_text(changelog: Seq<char>, version: Seq<char>) -> Option<Seq<char>> {
    let marker = "## v"@ + version + " - "@;
    match first_occurrence(changelog, marker, 0) {
        None => None,
        Some(start) => {
            let rest = changelog.subrange(start, changelog.len() as int);
            Some(
                trim_end_ws(
                    match first_occurrence(rest, "\n## "@, marker.len() as int) {
                        Some(end) => rest.subrange(0, end),
                        None => rest,
                    },
                ),
            )
        },
    }
}

/// The entry for `version` in a changelog; fails when there is none.
pub fn changelog_entry_from_text(changelog: &str, version: &str) -> (r: Result<String, ToolError>)
    ensures
        match entry_text(changelog@, version@) {
            Some(e) => r matches Ok(t) && t@ == e,
            None => r matches Err(ToolError::Message(m)) && m@ == "CHANGELOG entry for "@ + version@
                + " not found"@,
        },
{
    let mut marker = String::new();
    marker.append("## v");
    marker.append(version);
    marker.append(" - ");
    let text = chars_of(changelog);
    let marker_chars = chars_of(marker.as_str());
    let start = match find_seq_from(&text, &marker_chars, 0) {
        None => {
            let mut m = String::new();
            m.append("CHANGELOG entry for ");
            m.append(version);
            m.append(" not found");
            return Err(ToolError::Message(m));
        },
        Some(s) => s,
    };
    proof {
        crate::text::lemma_first_occurrence(text@, marker_chars@, 0);
    }
    let mut rest_text = String::new();
    append_range(&mut rest_text, &text, start, text.len());
    let rest = chars_of(rest_text.as_str());
    let next = chars_of("\n## ");
    let end = match find_seq_from(&rest, &next, marker_chars.len()) {
        Some(e) => e,
        None => rest.len(),
    };
    proof {
        crate::text::lemma_first_occurrence(rest@, next@, marker_chars@.len() as int);
        assert(rest@.subrange(0, rest@.len() as int) =~= rest@);
    }
    let mut entry = String::new();
    append_range(&mut entry, &rest, 0, end);
    Ok(trim_end(entry.as_str()))
}

/// The release notes for `version`: its changelog entry and a newline.
pub fn release_notes(changelog: &str, version: &str) -> (r: Result<String, ToolError>)
    ensures
        match entry_text(changelog@, version@) {
            Some(e) => r matches Ok(t) && t@ == trim_end_ws(e) + "\n"@,
            None => r matches Err(ToolError::Message(m)) && m@ == "CHANGELOG entry for "@ + version@
                + " not found"@,
        },
{
    let entry = match changelog_entry_from_text(changelog, version) {
        Err(e) => return Err(e),
        Ok(t) => t,
    };
    let mut notes = trim_end(entry.as_str());
    notes.append("\n");
    Ok(notes)
}

/// A changelog with `section` placed before its first `## ` entry, below
/// the header.
pub open spec fn prepended_text(current: Seq<char>, section: Seq<char>) -> Seq<char> {
    let first = first_occurrence(current, "\n## "@, 0);
    let header = match first {
        Some(i) => trim_end_ws(current.subrange(0, i)),
        None => trim_end_ws(current),
    };
    let rest = match first {
        Some(i) => trim_start_ws(current.subrange(i, current.len() as int)),
        None => Seq::empty(),
    };
    if rest.len() == 0 {
        header + "\n\n"@ + section + "\n"@
    } else {
        header + "\n\n"@ + section + "\n\n"@ + rest + "\n"@
    }
}

/// Place `section` before the first entry of a changelog.
pub fn prepend_section(current: &str, section: &str) -> (r: String)
    ensures
        r@ == prepended_text(current@, section@),
{
    let text = chars_of(current);
    let marker = chars_of("\n## ");
    let first = find_seq_from(&text, &marker, 0);
    proof {
        crate::text::lemma_first_occurrence(text@, marker@, 0);
    }
    let (header, rest) = match first {
        Some(i) => {
            let mut head = String::new();
            append_range(&mut head, &text, 0, i);
            let mut tail = String::new();
            append_range(&mut tail, &text, i, text.len());
            (trim_end(head.as_str()), trim_start(tail.as_str()))
        },
        None => (trim_end(current), String::new()),
    };
    let mut next = String::new();
    next.append(header.as_str());
    next.append("\n\n");
    next.append(section);
    if rest.as_str().unicode_len() == 0 {
        next.append("\n");
    } else {
        next.append("\n\n");
        next.append(rest.as_str());
        next.append("\n");
    }
    next
}

/// The changelog with a new release section for `prs` placed before its
/// first entry; fails as `build_changelog_section` does.
pub fn prepend_changelog(current: &str, version: &str, date: &str, prs: &[PullRequestMetadata]) -> (r: Result<String, ToolError>)
    ensures
        pull_requests_problem(prs@, false) is Some ==> validation_outcome(
            match r {
                Ok(_) => Ok(()),
                Err(e) => Err(e),
            },
            pull_requests_problem(prs@, false),
        ),
        pull_requests_problem(prs@, false) is None ==> (r matches Ok(t) && t@ == prepended_text(
            current@,
            changelog_section_text(version@, date@, prs@),
        )),
{
    let section = match build_changelog_section(version, date, prs) {
        Err(e) => return Err(e),
        Ok(s) => s,
    };
    Ok(prepend_section(current, section.as_str()))
}

/// `n` in decimal, padded with zeros on the left to `width` digits.
pub open spec fn zero_padded(n: nat, width: nat) -> Seq<char> {
    let d = decimal(n);
    if d.len() >= width {
        d
    } else {
        Seq::new((width - d.len()) as nat, |i: int| '0') + d
    }
}

fn push_zero_padded(out: &mut String, n: u64, width: usize)
    ensures
        final(out)@ == old(out)@ + zero_padded(n as nat, width as nat),
{
    let d = crate::text::decimal_string(n);
    let len = d.as_str().unicode_len();
    let ghost before = out@;
    if len < width {
        let mut k: usize = 0;
        while k < width - len
            invariant
                k <= width - len,
                len < width,
                out@ == before + Seq::new(k as nat, |i: int| '0'),
            decreases width - len - k,
        {
            crate::text::push_char(out, '0');
            k += 1;
            assert(out@ =~= before + Seq::new(k as nat, |i: int| '0'));
        }
    }
    out.append(d.as_str());
    assert(out@ =~= before + zero_padded(n as nat, width as nat));
}

/// A calendar date as `YYYY-MM-DD`, each part padded with zeros; a year
/// before zero keeps its sign within its four places.
pub open spec fn date_text_of(year: i32, month: u8, day: u8) -> Seq<char> {
    (if year < 0 {
        "-"@ + zero_padded((-year) as nat, 3)
    } else {
        zero_padded(year as nat, 4)
    }) + "-"@ + zero_padded(month as nat, 2) + "-"@ + zero_padded(day as nat, 2)
}

/// Write a calendar date as `YYYY-MM-DD`.
pub fn date_text(year: i32, month: u8, day: u8) -> (r: String)
    ensures
        r@ == date_text_of(year, month, day),
{
    let mut out = String::new();
    if year < 0 {
        out.append("-");
        let magnitude: u64 = (0i64 - year as i64) as u64;
        push_zero_padded(&mut out, magnitude, 3);
    } else {
        push_zero_padded(&mut out, year as u64, 4);
    }
    out.append("-");
    push_zero_padded(&mut out, month as u64, 2);
    out.append("-");
    push_zero_padded(&mut out, day as u64, 2);
    out
}


/// The heading that opens the changelog entry of `version`.
pub open spec fn entry_marker(version: Seq<char>) -> Seq<char> {
    "## v"@ + version + " - "@
}

/// The part of a changelog above its first entry, as placing a section
/// keeps it.
pub open spec fn changelog_header(current: Seq<char>) -> Seq<char> {
    match first_occurrence(current, "\n## "@, 0) {
        Some(i) => trim_end_ws(current.subrange(0, i)),
        None => trim_end_ws(current),
    }
}

/// `first_occurrence` names a position when it is the first from `from`.
proof fn lemma_first_at(s: Seq<char>, p: Seq<char>, from: int, k: int)
    requires
        0 <= from <= k,
        occurs_at(s, p, k),
        forall|j: int| from <= j < k ==> !#[trigger] occurs_at(s, p, j),
    ensures
        first_occurrence(s, p, from) == Some(k),
{
    lemma_first_occurrence(s, p, from);
    match first_occurrence(s, p, from) {
        Some(f) => {
            if f < k {
                assert(!occurs_at(s, p, f));
            } else if f > k {
                assert(!occurs_at(s, p, k));
            }
        },
        None => {
            assert(!occurs_at(s, p, k));
        },
    }
}

/// `first_occurrence` finds nothing where nothing occurs.
proof fn lemma_first_none(s: Seq<char>, p: Seq<char>, from: int)
    requires
        0 <= from,
        forall|j: int| from <= j ==> !#[trigger] occurs_at(s, p, j),
    ensures
        first_occurrence(s, p, from) is None,
{
    lemma_first_occurrence(s, p, from);
    match first_occurrence(s, p, from) {
        Some(f) => {
            assert(!occurs_at(s, p, f));
        },
        None => {},
    }
}

/// Trimming leaves no whitespace at the end.
proof fn lemma_trim_end_last(s: Seq<char>)
    ensures
        trim_end_ws(s).len() > 0 ==> !char_is_whitespace(trim_end_ws(s).last()),
    decreases s.len(),
{
    if s.len() > 0 && char_is_whitespace(s.last()) {
        lemma_trim_end_last(s.drop_last());
    }
}

/// Trimming `x + y` only trims `y` when something of `y` stays.
proof fn lemma_trim_end_concat(x: Seq<char>, y: Seq<char>)
    requires
        trim_end_ws(y).len() > 0,
    ensures
        trim_end_ws(x + y) == x + trim_end_ws(y),
    decreases y.len(),
{
    if y.len() > 0 && char_is_whitespace(y.last()) {
        assert((x + y).drop_last() =~= x + y.drop_last());
        lemma_trim_end_concat(x, y.drop_last());
    } else if y.len() == 0 {
    } else {
        assert((x + y).last() == y.last());
    }
}

/// A line ending after text that ends in something else is trimmed away.
proof fn lemma_trim_end_newline(s: Seq<char>)
    requires
        s.len() > 0,
        !char_is_whitespace(s.last()),
    ensures
        trim_end_ws(s + "\n"@) == s,
{
    reveal_strlit("\n");
    lemma_whitespace_chars();
    let t = s + "\n"@;
    assert(t.last() == '\n');
    assert(t.drop_last() =~= s);
    assert(trim_end_ws(t) == trim_end_ws(t.drop_last()));
    assert(trim_end_ws(s) == s);
}

/// A pattern without a newline does not occur across the newlines after
/// `h`, nor inside `h` when `h` does not hold it.
proof fn lemma_no_occurrence_before(h: Seq<char>, tail: Seq<char>, m: Seq<char>, j: int)
    requires
        m.len() > 0,
        forall|k: int| 0 <= k < m.len() ==> m[k] != '\n',
        !contains_seq(h, m),
        0 <= j < h.len() + 2,
    ensures
        !occurs_at(h + "\n\n"@ + tail, m, j),
{
    reveal_strlit("\n\n");
    let t = h + "\n\n"@ + tail;
    if occurs_at(t, m, j) {
        if j + m.len() <= h.len() {
            assert(t.subrange(j, j + m.len()) =~= h.subrange(j, j + m.len()));
            assert(occurs_at(h, m, j));
        } else if j <= h.len() {
            assert(t.subrange(j, j + m.len())[h.len() - j] == t[h.len() as int]);
            assert(m[h.len() - j] != '\n');
        } else {
            assert(t.subrange(j, j + m.len())[0] == t[j]);
            assert(t[j] == '\n');
        }
    }
}

/// The entry of the section's version starts just below the header.
proof fn lemma_entry_start(h: Seq<char>, text: Seq<char>, m: Seq<char>)
    requires
        m.len() > 0,
        forall|k: int| 0 <= k < m.len() ==> m[k] != '\n',
        !contains_seq(h, m),
        text.len() >= m.len(),
        text.subrange(0, m.len() as int) == m,
    ensures
        first_occurrence(h + "\n\n"@ + text, m, 0) == Some(h.len() + 2int),
{
    reveal_strlit("\n\n");
    let t = h + "\n\n"@ + text;
    let s0 = h.len() + 2int;
    assert(t.subrange(s0, s0 + m.len() as int) =~= text.subrange(0, m.len() as int));
    assert forall|j: int| 0 <= j < s0 implies !#[trigger] occurs_at(t, m, j) by {
        lemma_no_occurrence_before(h, text, m, j);
    }
    lemma_first_at(t, m, 0, s0);
}

/// No later heading follows a section that is the last entry.
proof fn lemma_entry_alone(section: Seq<char>, from: int)
    requires
        0 <= from,
        !contains_seq(section, "\n## "@),
    ensures
        first_occurrence(section + "\n"@, "\n## "@, from) is None,
{
    reveal_strlit("\n## ");
    reveal_strlit("\n");
    let next = "\n## "@;
    let body = section + "\n"@;
    let n = section.len() as int;
    assert forall|j: int| from <= j implies !#[trigger] occurs_at(body, next, j) by {
        if occurs_at(body, next, j) {
            if j + 4 <= n {
                assert(body.subrange(j, j + 4) =~= section.subrange(j, j + 4));
                assert(occurs_at(section, next, j));
            } else {
                assert(body.subrange(j, j + 4)[n - j] == body[n]);
                assert(next[n - j] != '\n');
            }
        }
    }
    lemma_first_none(body, next, from);
}

/// The next heading after a section followed by other entries is the one
/// that opens them.
proof fn lemma_entry_before(section: Seq<char>, rest: Seq<char>, from: int)
    requires
        0 <= from <= section.len() + 1,
        !contains_seq(section, "\n## "@),
        rest.len() >= 3,
        rest[0] == '#',
        rest[1] == '#',
        rest[2] == ' ',
    ensures
        first_occurrence(section + ("\n\n"@ + rest + "\n"@), "\n## "@, from) == Some(section.len() + 1int),
{
    reveal_strlit("\n## ");
    reveal_strlit("\n\n");
    reveal_strlit("\n");
    let next = "\n## "@;
    let body = section + ("\n\n"@ + rest + "\n"@);
    let n = section.len() as int;
    assert(body.subrange(n + 1, n + 5) =~= next);
    assert forall|j: int| from <= j < n + 1 implies !#[trigger] occurs_at(body, next, j) by {
        if occurs_at(body, next, j) {
            if j + 4 <= n {
                assert(body.subrange(j, j + 4) =~= section.subrange(j, j + 4));
                assert(occurs_at(section, next, j));
            } else if j == n {
                assert(body.subrange(j, j + 4)[1] == body[n + 1]);
            } else {
                assert(body.subrange(j, j + 4)[n - j] == body[n]);
                assert(next[n - j] != '\n');
            }
        }
    }
    lemma_first_at(body, next, from, n + 1);
}

/// The entries below the header start with their heading.
proof fn lemma_rest_heading(current: Seq<char>, i: int)
    requires
        occurs_at(current, "\n## "@, i),
    ensures
        trim_start_ws(current.subrange(i, current.len() as int)) == current.subrange(i + 1, current.len() as int),
        current.subrange(i + 1, current.len() as int).len() >= 3,
        current.subrange(i + 1, current.len() as int)[0] == '#',
        current.subrange(i + 1, current.len() as int)[1] == '#',
        current.subrange(i + 1, current.len() as int)[2] == ' ',
{
    reveal_strlit("\n## ");
    lemma_whitespace_chars();
    let after = current.subrange(i, current.len() as int);
    assert(current.subrange(i, i + 4) == "\n## "@);
    assert(after[0] == current[i]);
    assert(after[1] == current[i + 1]);
    assert(after.drop_first() =~= current.subrange(i + 1, current.len() as int));
    assert(trim_start_ws(after) == trim_start_ws(after.drop_first()));
    assert(trim_start_ws(after.drop_first()) == after.drop_first());
    assert(current.subrange(i, i + 4)[2] == current[i + 2]);
    assert(current.subrange(i, i + 4)[3] == current[i + 3]);
    assert(current[i + 2] == '#');
    assert(current[i + 3] == ' ');
}

/// After a section is placed in a changelog, the entry read back for its
/// version is that section: when the section opens with the version's
/// heading and ends in a non-whitespace character, the version holds no
/// newline, the header above the entries holds no heading of that version,
/// and the section holds no `\n## `.
pub proof fn lemma_prepended_entry(current: Seq<char>, version: Seq<char>, section: Seq<char>)
    requires
        section.len() >= entry_marker(version).len(),
        section.subrange(0, entry_marker(version).len() as int) == entry_marker(version),
        !char_is_whitespace(section.last()),
        forall|k: int| 0 <= k < version.len() ==> version[k] != '\n',
        !contains_seq(changelog_header(current), entry_marker(version)),
        !contains_seq(section, "\n## "@),
    ensures
        entry_text(prepended_text(current, section), version) == Some(section),
{
    reveal_strlit("## v");
    reveal_strlit(" - ");
    reveal_strlit("\n\n");
    reveal_strlit("\n");
    let m = entry_marker(version);
    let next = "\n## "@;
    let h = changelog_header(current);
    let first = first_occurrence(current, next, 0);
    lemma_first_occurrence(current, next, 0);
    let rest = match first {
        Some(i) => trim_start_ws(current.subrange(i, current.len() as int)),
        None => Seq::<char>::empty(),
    };
    let tail = if rest.len() == 0 {
        "\n"@
    } else {
        "\n\n"@ + rest + "\n"@
    };
    let t = prepended_text(current, section);
    assert(t =~= h + "\n\n"@ + (section + tail));
    assert forall|k: int| 0 <= k < m.len() implies m[k] != '\n' by {
        if k >= 4 && k < 4 + version.len() {
            assert(m[k] == version[k - 4]);
        }
    }
    assert((section + tail).subrange(0, m.len() as int) =~= section.subrange(0, m.len() as int));
    lemma_entry_start(h, section + tail, m);
    let s0 = h.len() + 2int;
    assert(t.subrange(s0, t.len() as int) =~= section + tail);
    lemma_trim_end_newline(section);
    if rest.len() == 0 {
        lemma_entry_alone(section, m.len() as int);
    } else {
        let i = first->0;
        lemma_rest_heading(current, i);
        lemma_entry_before(section, rest, m.len() as int);
        assert((section + tail).subrange(0, section.len() + 1int) =~= section + "\n"@);
    }
}

/// The release notes of a version just prepared are its new changelog
/// section and a newline: when the version holds no newline, the header
/// above the entries holds no heading of that version, the section holds no
/// `\n## `, and the section has a body or a date that is not blank.
pub proof fn lemma_notes_after_prepare(
    current: Seq<char>,
    version: Seq<char>,
    date: Seq<char>,
    prs: Seq<PullRequestMetadata>,
)
    requires
        forall|k: int| 0 <= k < version.len() ==> version[k] != '\n',
        !contains_seq(changelog_header(current), entry_marker(version)),
        !contains_seq(changelog_section_text(version, date, prs), "\n## "@),
        changelog_body_text(prs).len() > 0 || trim_end_ws(date).len() > 0,
    ensures
        entry_text(prepended_text(current, changelog_section_text(version, date, prs)), version) == Some(
            changelog_section_text(version, date, prs),
        ),
        trim_end_ws(changelog_section_text(version, date, prs)) == changelog_section_text(version, date, prs),
{
    reveal_strlit("\n");
    reveal_strlit("");
    let m = entry_marker(version);
    let body = changelog_body_text(prs);
    let section = changelog_section_text(version, date, prs);
    assert(section_heading(version, date) =~= m + date);
    if body.len() > 0 {
        lemma_trim_end_last(join_parts(
            label_section(prs, ReleaseLabel::Major) + label_section(prs, ReleaseLabel::Minor)
                + label_section(prs, ReleaseLabel::Patch),
            "\n"@,
        ));
        let x = m + date + "\n"@ + ""@ + "\n"@;
        assert(section_heading(version, date) + "\n"@ + ""@ + "\n"@ + body =~= x + body);
        assert(trim_end_ws(body) == body);
        lemma_trim_end_concat(x, body);
        assert(section == x + body);
        assert(section.subrange(0, m.len() as int) =~= m);
        assert(section.last() == body.last());
    } else {
        lemma_trim_end_concat(m, date);
        lemma_trim_end_last(date);
        assert(section == m + trim_end_ws(date));
        assert(section.subrange(0, m.len() as int) =~= m);
        assert(section.last() == trim_end_ws(date).last());
    }
    assert(section.len() > 0);
    assert(!char_is_whitespace(section.last()));
    lemma_prepended_entry(current, version, section);
    assert(trim_end_ws(section) == section);
}

} // verus!
