//! What the tool records about the workspaces it creates.
//!
//! Creation times are moments as `time` holds them; paths are text.

use vstd::prelude::*;
use vstd::seq_lib::*;
use vstd::string::*;

use crate::doctor::{chars_order, clone_opt_string, compare_strings, lemma_chars_order};
use crate::error::{Error, Result};
use crate::types::{Timestamp, WorkspaceMetadataStatus, WorkspaceName, WorkspaceTemplate};

verus! {

/// What `time::OffsetDateTime::parse` with the RFC 3339 format gives for a
/// text: the Unix time in whole seconds, the nanosecond and the UTC offset
/// in seconds of what it reads, or the message of its error.
pub uninterp spec fn rfc3339_parse(text: Seq<char>) -> core::result::Result<(i64, u32, i32), Seq<char>>;

/// The moment that `time::OffsetDateTime::parse` reads from an RFC 3339
/// text, if it reads one.
pub open spec fn rfc3339_time(text: Seq<char>) -> Option<Timestamp> {
    match rfc3339_parse(text) {
        Ok(t) => Some(Timestamp { unix_seconds: t.0, nanosecond: t.1, offset_seconds: t.2 }),
        Err(_) => None,
    }
}

/// The message `time::OffsetDateTime::parse` gives for a text it cannot
/// read as RFC 3339.
pub open spec fn rfc3339_parse_error(text: Seq<char>) -> Seq<char> {
    match rfc3339_parse(text) {
        Ok(_) => Seq::empty(),
        Err(m) => m,
    }
}

/// What `time` gives when a moment is rebuilt from its Unix time in whole
/// seconds, its nanosecond and its UTC offset in seconds, and formatted as
/// RFC 3339: the text; `None` where the moment has no date in that offset;
/// or the message of an error.
pub uninterp spec fn rfc3339_format(unix_seconds: i64, nanosecond: u32, offset_seconds: i32) -> core::result::Result<
    Option<Seq<char>>,
    Seq<char>,
>;

/// The RFC 3339 text that `time` formats for a moment, if it can.
pub open spec fn rfc3339_text(t: Timestamp) -> Option<Seq<char>> {
    match rfc3339_format(t.unix_seconds, t.nanosecond, t.offset_seconds) {
        Ok(Some(x)) => Some(x),
        _ => None,
    }
}

/// Why a moment cannot be written as RFC 3339: the message of `time`'s
/// error, or that it has no date in its offset.
pub open spec fn rfc3339_format_error(t: Timestamp) -> Seq<char> {
    match rfc3339_format(t.unix_seconds, t.nanosecond, t.offset_seconds) {
        Ok(Some(_)) => Seq::empty(),
        Ok(None) => "creation time has no date in its UTC offset"@,
        Err(m) => m,
    }
}

/// Calls `time::OffsetDateTime::parse` with the RFC 3339 format and takes
/// the result's Unix timestamp, nanosecond and offset; a failure comes back
/// as its message. What the format accepts, and the wording of its errors,
/// are named, not restated.
#[verifier::external_body]
fn parse_rfc3339(text: &str) -> (r: core::result::Result<(i64, u32, i32), String>)
    ensures
        match r {
            Ok(t) => rfc3339_parse(text@) == Ok::<(i64, u32, i32), Seq<char>>(t),
            Err(m) => rfc3339_parse(text@) == Err::<(i64, u32, i32), Seq<char>>(m@),
        },
{
    match time::OffsetDateTime::parse(text, &time::format_description::well_known::Rfc3339) {
        Ok(t) => Ok((t.unix_timestamp(), t.nanosecond(), t.offset().whole_seconds())),
        Err(e) => Err(e.to_string()),
    }
}

/// Calls `time::UtcOffset::from_whole_seconds`,
/// `time::OffsetDateTime::from_unix_timestamp` and `replace_nanosecond`,
/// then `checked_to_offset` and `format` with the RFC 3339 format: the
/// text; `None` where `checked_to_offset` finds no date; a failure of the
/// others comes back as its message. The text and the errors are named,
/// not restated.
#[verifier::external_body]
fn format_rfc3339(unix_seconds: i64, nanosecond: u32, offset_seconds: i32) -> (r: core::result::Result<
    Option<String>,
    String,
>)
    ensures
        match r {
            Ok(Some(t)) => rfc3339_format(unix_seconds, nanosecond, offset_seconds) == Ok::<
                Option<Seq<char>>,
                Seq<char>,
            >(Some(t@)),
            Ok(None) => rfc3339_format(unix_seconds, nanosecond, offset_seconds) == Ok::<
                Option<Seq<char>>,
                Seq<char>,
            >(None),
            Err(m) => rfc3339_format(unix_seconds, nanosecond, offset_seconds) == Err::<
                Option<Seq<char>>,
                Seq<char>,
            >(m@),
        },
{
    let offset = match time::UtcOffset::from_whole_seconds(offset_seconds) { Ok(o) => o, Err(e) => return Err(e.to_string()) };
    let utc = match time::OffsetDateTime::from_unix_timestamp(unix_seconds) { Ok(t) => t, Err(e) => return Err(e.to_string()) };
    let exact = match utc.replace_nanosecond(nanosecond) { Ok(t) => t, Err(e) => return Err(e.to_string()) };
    match exact.checked_to_offset(offset) {
        Some(local) => match local.format(&time::format_description::well_known::Rfc3339) { Ok(x) => Ok(Some(x)), Err(e) => Err(e.to_string()) },
        None => Ok(None),
    }
}

/// Write a moment as RFC 3339, or say why it cannot be.
fn format_time(t: Timestamp) -> (r: core::result::Result<String, String>)
    ensures
        match r {
            Ok(x) => rfc3339_text(t) == Some(x@),
            Err(m) => rfc3339_text(t) is None && m@ == rfc3339_format_error(t),
        },
{
    match format_rfc3339(t.unix_seconds, t.nanosecond, t.offset_seconds) {
        Ok(Some(x)) => Ok(x),
        Ok(None) => Err("creation time has no date in its UTC offset".to_owned()),
        Err(m) => Err(m),
    }
}

/// The RFC 3339 text of a moment, when `time` can write it.
pub fn format_rfc3339_text(t: Timestamp) -> (r: Option<String>)
    ensures
        crate::doctor::opt_text(r) == rfc3339_text(t),
{
    match format_time(t) {
        Ok(x) => Some(x),
        Err(_) => None,
    }
}

/// One workspace the tool has recorded.
#[derive(Debug)]
pub struct WorkspaceMetadataRecord {
    /// Workspace name.
    pub name: WorkspaceName,
    /// Where it was created, if recorded.
    pub path: Option<String>,
    /// Whether the tool created it.
    pub created_by_navi: bool,
    /// When it was created.
    pub created_at: Timestamp,
    /// The template its path was planned with.
    pub template: WorkspaceTemplate,
    /// The revision it was created at, if one was given.
    pub revision: Option<String>,
}

/// The parts of a record: name, path, whether the tool created it, creation
/// time, template and revision.
pub type RecordView = (Seq<char>, Option<Seq<char>>, bool, Timestamp, Seq<char>, Option<Seq<char>>);

/// The text of an optional string.
pub open spec fn opt_view(s: Option<String>) -> Option<Seq<char>> {
    match s {
        Some(x) => Some(x@),
        None => None,
    }
}

impl View for WorkspaceMetadataRecord {
    type V = RecordView;

    open spec fn view(&self) -> RecordView {
        (self.name@, opt_view(self.path), self.created_by_navi, self.created_at, self.template@, opt_view(self.revision))
    }
}

/// The parts of each record.
pub open spec fn record_views(s: Seq<WorkspaceMetadataRecord>) -> Seq<RecordView> {
    s.map_values(|r: WorkspaceMetadataRecord| r@)
}

/// A recorded workspace and its recorded path.
#[derive(Debug)]
pub struct WorkspaceMetadataEntry {
    /// Workspace name.
    pub name: WorkspaceName,
    /// Recorded path, if any.
    pub path: Option<String>,
}

/// A record as the metadata file holds it.
#[derive(Debug, PartialEq, Eq)]
pub struct WorkspaceMetadataRecordFile {
    /// Workspace name.
    pub name: String,
    /// Recorded path; an empty one counts as none.
    pub path: Option<String>,
    /// Whether the tool created the workspace.
    pub created_by_navi: bool,
    /// Creation time, RFC 3339.
    pub created_at: String,
    /// Path template.
    pub template: String,
    /// Revision; empty when none was given.
    pub revision: String,
}

/// The records of workspaces the tool has created, with the file they are
/// kept in.
#[derive(Debug)]
pub struct WorkspaceMetadataStore {
    /// The metadata file.
    pub path: String,
    /// The records, in file order.
    pub records: Vec<WorkspaceMetadataRecord>,
}

/// A recorded path, unless it is empty.
pub open spec fn normalized_path(path: Option<Seq<char>>) -> Option<Seq<char>> {
    match path {
        Some(p) => if p.len() == 0 {
            None
        } else {
            Some(p)
        },
        None => None,
    }
}

/// A recorded path, unless it is empty.
pub fn normalized_recorded_path(path: Option<&str>) -> (r: Option<&str>)
    ensures
        match r {
            Some(p) => normalized_path(Some(p@)) == Some(p@) && path == Some(p),
            None => normalized_path(match path {
                Some(p) => Some(p@),
                None => None,
            }) is None,
        },
{
    match path {
        Some(p) => if p.unicode_len() == 0 {
            None
        } else {
            Some(p)
        },
        None => None,
    }
}

/// The position of the first record for `name`.
pub open spec fn first_record(s: Seq<RecordView>, name: Seq<char>) -> Option<int>
    decreases s.len(),
{
    if s.len() == 0 {
        None
    } else {
        match first_record(s.drop_last(), name) {
            Some(i) => Some(i),
            None => if s.last().0 == name {
                Some(s.len() - 1)
            } else {
                None
            },
        }
    }
}

proof fn lemma_first_record(s: Seq<RecordView>, name: Seq<char>)
    ensures
        match first_record(s, name) {
            Some(i) => 0 <= i < s.len() && s[i].0 == name && forall|k: int| 0 <= k < i ==> (#[trigger] s[k]).0 != name,
            None => forall|k: int| 0 <= k < s.len() ==> (#[trigger] s[k]).0 != name,
        },
    decreases s.len(),
{
    if s.len() > 0 {
        lemma_first_record(s.drop_last(), name);
        assert forall|k: int| 0 <= k < s.len() - 1 implies s[k] == s.drop_last()[k] by {}
    }
}

/// The records without those for `name`.
pub open spec fn without_name(s: Seq<RecordView>, name: Seq<char>) -> Seq<RecordView>
    decreases s.len(),
{
    if s.len() == 0 {
        Seq::empty()
    } else {
        without_name(s.drop_last(), name) + if s.last().0 == name {
            Seq::empty()
        } else {
            seq![s.last()]
        }
    }
}

/// Records ordered by workspace name.
pub open spec fn records_sorted(s: Seq<RecordView>) -> bool {
    forall|i: int, j: int| 0 <= i < j < s.len() ==> chars_order((#[trigger] s[i]).0, (#[trigger] s[j]).0) <= 0
}

/// Read one record of the metadata file: the name and template must be
/// valid and the time RFC 3339; an empty path or revision counts as none.
pub open spec fn record_file_outcome(f: WorkspaceMetadataRecordFile, path: Seq<char>, r: Result<WorkspaceMetadataRecord>) -> bool {
    if !crate::types::is_valid_workspace_name(f.name@) {
        r matches Err(Error::InvalidWorkspaceMetadata { path: p, message: m }) && p@ == path && m@
            == crate::error::error_text(Error::InvalidWorkspaceName(f.name))
    } else if rfc3339_time(f.created_at@) is None {
        r matches Err(Error::InvalidWorkspaceMetadata { path: p, message: m }) && p@ == path && m@
            == rfc3339_parse_error(f.created_at@)
    } else if !crate::types::is_valid_template(f.template@) {
        r matches Err(Error::InvalidWorkspaceMetadata { path: p, message: m }) && p@ == path && m@
            == crate::error::error_text(Error::InvalidWorkspaceTemplate(f.template))
    } else {
        r matches Ok(rec) && rec@ == (
            f.name@,
            normalized_path(opt_view(f.path)),
            f.created_by_navi,
            rfc3339_time(f.created_at@)->0,
            f.template@,
            if f.revision@.len() == 0 {
                None
            } else {
                Some(f.revision@)
            },
        )
    }
}

fn metadata_error(path: &str, message: String) -> (r: Error)
    ensures
        r matches Error::InvalidWorkspaceMetadata { path: p, message: m } && p@ == path@ && m == message,
{
    Error::InvalidWorkspaceMetadata { path: path.to_owned(), message }
}

/// Read one record of the metadata file kept at `path`.
pub fn parse_record_file(record: WorkspaceMetadataRecordFile, path: &str) -> (r: Result<WorkspaceMetadataRecord>)
    ensures
        record_file_outcome(record, path@, r),
{
    let name = match WorkspaceName::new(record.name.as_str()) {
        Ok(n) => n,
        Err(e) => {
            let message = e.message();
            return Err(metadata_error(path, message));
        },
    };
    let created_at = match parse_rfc3339(record.created_at.as_str()) {
        Ok(t) => Timestamp { unix_seconds: t.0, nanosecond: t.1, offset_seconds: t.2 },
        Err(m) => return Err(metadata_error(path, m)),
    };
    let template = match WorkspaceTemplate::new(record.template.as_str()) {
        Ok(t) => t,
        Err(e) => {
            let message = e.message();
            return Err(metadata_error(path, message));
        },
    };
    let recorded = match &record.path {
        Some(p) => match normalized_recorded_path(Some(p.as_str())) {
            Some(q) => Some(q.to_owned()),
            None => None,
        },
        None => None,
    };
    let revision = if record.revision.as_str().unicode_len() == 0 {
        None
    } else {
        Some(record.revision)
    };
    Ok(
        WorkspaceMetadataRecord {
            name,
            path: recorded,
            created_by_navi: record.created_by_navi,
            created_at,
            template,
            revision,
        },
    )
}

/// Record order: by workspace name.
fn compare_records(a: &WorkspaceMetadataRecord, b: &WorkspaceMetadataRecord) -> (r: i8)
    ensures
        r == chars_order(a@.0, b@.0),
{
    compare_strings(a.name.as_str(), b.name.as_str())
}

/// Insert `x` into sorted `out` after every record that does not come after
/// it.
fn insert_record(out: &mut Vec<WorkspaceMetadataRecord>, x: WorkspaceMetadataRecord)
    requires
        records_sorted(record_views(old(out)@)),
    ensures
        records_sorted(record_views(final(out)@)),
        record_views(final(out)@).to_multiset() == record_views(old(out)@).to_multiset().insert(x@),
{
    let mut j = out.len();
    while j > 0 && compare_records(&out[j - 1], &x) > 0
        invariant
            j <= out.len(),
            forall|k: int| j <= k < out.len() ==> chars_order((#[trigger] out@[k])@.0, x@.0) > 0,
        decreases j,
    {
        j -= 1;
    }
    let ghost before = record_views(out@);
    proof {
        assert forall|k: int| 0 <= k < j implies chars_order((#[trigger] before[k]).0, x@.0) <= 0 by {
            assert(before[k] == out@[k]@);
            assert(before[j - 1] == out@[j - 1]@);
            lemma_chars_order(before[k].0, before[j - 1].0, x@.0);
        }
        assert forall|k: int| j <= k < before.len() implies chars_order(x@.0, (#[trigger] before[k]).0) <= 0 by {
            assert(before[k] == out@[k]@);
            lemma_chars_order(before[k].0, x@.0, x@.0);
        }
        to_multiset_insert(before, j as int, x@);
    }
    out.insert(j, x);
    assert(record_views(out@) =~= before.insert(j as int, out@[j as int]@));
    let ghost after = record_views(out@);
    assert forall|a: int, b: int| 0 <= a < b < after.len() implies chars_order((#[trigger] after[a]).0, (#[trigger] after[b]).0) <= 0 by {
        if a < j && b > j {
            assert(after[a] == before[a]);
            assert(after[b] == before[b - 1]);
            lemma_chars_order(before[a].0, after[j as int].0, before[b - 1].0);
        } else if b < j {
            assert(after[a] == before[a]);
            assert(after[b] == before[b]);
        } else if a > j {
            assert(after[a] == before[a - 1]);
            assert(after[b] == before[b - 1]);
        }
    }
}

/// Records after recording `new`: it replaces the first record with its
/// name, or joins the records, which are then ordered by name.
pub open spec fn recorded(before: Seq<RecordView>, after: Seq<RecordView>, new: RecordView) -> bool {
    match first_record(before, new.0) {
        Some(i) => after == before.update(i, new),
        None => records_sorted(after) && after.to_multiset() == before.to_multiset().insert(new),
    }
}

/// The record a lookup by name finds: the first record for `name`.
pub open spec fn record_for(s: Seq<RecordView>, name: Seq<char>) -> Option<RecordView> {
    match first_record(s, name) {
        Some(i) => Some(s[i]),
        None => None,
    }
}

/// Some record is kept for `name`.
pub open spec fn has_record(s: Seq<RecordView>, name: Seq<char>) -> bool {
    exists|k: int| 0 <= k < s.len() && (#[trigger] s[k]).0 == name
}


proof fn lemma_has_record_multiset(a: Seq<RecordView>, b: Seq<RecordView>, name: Seq<char>)
    requires
        a.to_multiset() == b.to_multiset(),
        has_record(a, name),
    ensures
        has_record(b, name),
{
    let k = choose|k: int| 0 <= k < a.len() && (#[trigger] a[k]).0 == name;
    a.to_multiset_ensures();
    b.to_multiset_ensures();
    assert(a.contains(a[k]));
    assert(a.to_multiset().count(a[k]) > 0);
    assert(b.to_multiset().count(a[k]) > 0);
    assert(b.contains(a[k]));
    let j = choose|j: int| 0 <= j < b.len() && b[j] == a[k];
    assert(b[j].0 == name);
}

/// Recording a workspace and then looking it up gives the new record back.
pub proof fn lemma_recorded_lookup(before: Seq<RecordView>, after: Seq<RecordView>, new: RecordView)
    requires
        recorded(before, after, new),
    ensures
        record_for(after, new.0) == Some(new),
{
    lemma_first_record(before, new.0);
    match first_record(before, new.0) {
        Some(i) => {
            assert forall|k: int| 0 <= k < i implies (#[trigger] after[k]).0 != new.0 by {
                assert(after[k] == before[k]);
            }
            assert(after[i] == new);
            lemma_first_record(after, new.0);
            if first_record(after, new.0) != Some(i) {
                let j = first_record(after, new.0)->0;
                assert(j < i ==> after[j].0 != new.0);
                assert(!(j < i));
                assert(j > i ==> after[i].0 != new.0);
            }
        },
        None => {
            let m = before.to_multiset().insert(new);
            after.to_multiset_ensures();
            before.to_multiset_ensures();
            assert(m.count(new) > 0);
            assert(after.contains(new));
            let j0 = choose|j: int| 0 <= j < after.len() && after[j] == new;
            lemma_first_record(after, new.0);
            let j = first_record(after, new.0)->0;
            assert(after[j0].0 == new.0);
            assert(after[j].0 == new.0);
            assert(after.to_multiset().count(after[j]) > 0) by {
                assert(after.contains(after[j]));
            }
            if after[j] != new {
                assert(m.count(after[j]) == before.to_multiset().count(after[j]));
                assert(before.contains(after[j]));
                let b = choose|b: int| 0 <= b < before.len() && before[b] == after[j];
                assert(before[b].0 == new.0);
            }
        },
    }
}

/// Recording a workspace neither adds nor drops a record for any other
/// workspace.
pub proof fn lemma_recorded_keeps_others(before: Seq<RecordView>, after: Seq<RecordView>, new: RecordView, other: Seq<char>)
    requires
        recorded(before, after, new),
        other != new.0,
    ensures
        has_record(after, other) == has_record(before, other),
{
    lemma_first_record(before, new.0);
    match first_record(before, new.0) {
        Some(i) => {
            if has_record(before, other) {
                let k = choose|k: int| 0 <= k < before.len() && (#[trigger] before[k]).0 == other;
                assert(after[k].0 == other);
            }
            if has_record(after, other) {
                let k = choose|k: int| 0 <= k < after.len() && (#[trigger] after[k]).0 == other;
                assert(k != i);
                assert(before[k].0 == other);
            }
        },
        None => {
            let withnew = before.push(new);
            to_multiset_build(before, new);
            assert(withnew.to_multiset() == after.to_multiset());
            if has_record(before, other) {
                let k = choose|k: int| 0 <= k < before.len() && (#[trigger] before[k]).0 == other;
                assert(withnew[k].0 == other);
                lemma_has_record_multiset(withnew, after, other);
            }
            if has_record(after, other) {
                lemma_has_record_multiset(after, withnew, other);
                let k = choose|k: int| 0 <= k < withnew.len() && (#[trigger] withnew[k]).0 == other;
                assert(k < before.len());
                assert(before[k].0 == other);
            }
        },
    }
}

proof fn lemma_without_name_members(s: Seq<RecordView>, name: Seq<char>)
    ensures
        forall|k: int| 0 <= k < without_name(s, name).len() ==> (#[trigger] without_name(s, name)[k]).0 != name,
    decreases s.len(),
{
    if s.len() > 0 {
        lemma_without_name_members(s.drop_last(), name);
        let w = without_name(s.drop_last(), name);
        let tail = if s.last().0 == name { Seq::<RecordView>::empty() } else { seq![s.last()] };
        assert(without_name(s, name) == w + tail);
        assert forall|k: int| 0 <= k < without_name(s, name).len() implies (#[trigger] without_name(s, name)[k]).0 != name by {
            if k < w.len() {
                assert(without_name(s, name)[k] == w[k]);
            }
        }
    }
}

proof fn lemma_without_name_lookup(s: Seq<RecordView>, removed: Seq<char>, name: Seq<char>)
    requires
        removed != name,
    ensures
        record_for(without_name(s, removed), name) == record_for(s, name),
    decreases s.len(),
{
    if s.len() > 0 {
        let d = s.drop_last();
        lemma_without_name_lookup(d, removed, name);
        lemma_first_record(d, name);
        let w = without_name(d, removed);
        let full = without_name(s, removed);
        if s.last().0 == removed {
            assert(full =~= w);
            match first_record(d, name) {
                Some(j) => {
                    assert(first_record(s, name) == Some(j));
                    assert(s[j] == d[j]);
                },
                None => {
                    assert(first_record(s, name) is None);
                },
            }
        } else {
            assert(full =~= w.push(s.last()));
            assert(full.drop_last() =~= w);
            assert(full.last() == s.last());
            match first_record(d, name) {
                Some(j) => {
                    let i = first_record(w, name)->0;
                    assert(first_record(w, name) is Some);
                    assert(first_record(full, name) == Some(i));
                    lemma_first_record(w, name);
                    assert(full[i] == w[i]);
                    assert(first_record(s, name) == Some(j));
                    assert(s[j] == d[j]);
                },
                None => {
                    assert(first_record(w, name) is None);
                    if s.last().0 == name {
                        assert(first_record(full, name) == Some(full.len() - 1));
                        assert(first_record(s, name) == Some(s.len() - 1));
                    } else {
                        assert(first_record(full, name) is None);
                        assert(first_record(s, name) is None);
                    }
                },
            }
        }
    }
}

/// Forgetting a workspace removes every record for it and changes no
/// lookup of another workspace.
pub proof fn lemma_removed_lookup(s: Seq<RecordView>, removed: Seq<char>, other: Seq<char>)
    requires
        other != removed,
    ensures
        !has_record(without_name(s, removed), removed),
        record_for(without_name(s, removed), other) == record_for(s, other),
{
    lemma_without_name_members(s, removed);
    lemma_without_name_lookup(s, removed, other);
}

impl WorkspaceMetadataStore {
    /// The store for a metadata file that does not exist yet.
    pub fn empty(path: &str) -> (r: WorkspaceMetadataStore)
        ensures
            r.path@ == path@,
            r.records@.len() == 0,
    {
        WorkspaceMetadataStore { path: path.to_owned(), records: Vec::new() }
    }

    /// Record a workspace the tool has just created at `now`: an existing
    /// record for the name is replaced in place; otherwise the record is
    /// added and the records ordered by name.
    pub fn record_workspace(
        &mut self,
        workspace: &WorkspaceName,
        path: &str,
        template: &WorkspaceTemplate,
        revision: Option<&str>,
        now: Timestamp,
    )
        ensures
            final(self).path == old(self).path,
            recorded(
                record_views(old(self).records@),
                record_views(final(self).records@),
                (
                    workspace@,
                    Some(path@),
                    true,
                    now,
                    template@,
                    match revision {
                        Some(x) => Some(x@),
                        None => None,
                    },
                ),
            ),
    {
        let new_record = WorkspaceMetadataRecord {
            name: workspace.clone(),
            path: Some(path.to_owned()),
            created_by_navi: true,
            created_at: now,
            template: template.clone(),
            revision: match revision {
                Some(r) => Some(r.to_owned()),
                None => None,
            },
        };
        let ghost olds = record_views(self.records@);
        let ghost nv: RecordView = (
            workspace@,
            Some(path@),
            true,
            now,
            template@,
            match revision {
                Some(r) => Some(r@),
                None => None,
            },
        );
        assert(new_record@ == nv);
        let mut i: usize = 0;
        while i < self.records.len()
            invariant
                i <= self.records@.len(),
                new_record@ == nv,
                nv == (
                    workspace@,
                    Some(path@),
                    true,
                    now,
                    template@,
                    match revision {
                        Some(x) => Some(x@),
                        None => None,
                    },
                ),
                olds == record_views(self.records@),
                olds == record_views(old(self).records@),
                self.path == old(self).path,
                forall|k: int| 0 <= k < i ==> (#[trigger] olds[k]).0 != workspace@,
            decreases self.records@.len() - i,
        {
            assert(olds[i as int] == self.records@[i as int]@);
            if self.records[i].name.same_as(workspace) {
                proof {
                    lemma_first_record(olds, workspace@);
                    assert(first_record(olds, workspace@) == Some(i as int));
                }
                self.records.set(i, new_record);
                assert(record_views(self.records@) =~= olds.update(i as int, nv));
                assert(nv.0 == workspace@);
                assert(first_record(olds, nv.0) == Some(i as int));
                assert(record_views(self.records@) == olds.update(i as int, nv));
                assert(recorded(olds, record_views(self.records@), nv));
                return;
            }
            i += 1;
        }
        proof {
            lemma_first_record(olds, workspace@);
            assert(first_record(olds, nv.0) is None);
        }
        let mut input: Vec<WorkspaceMetadataRecord> = Vec::new();
        std::mem::swap(&mut input, &mut self.records);
        input.push(new_record);
        let ghost all = record_views(input@);
        assert(all =~= olds.push(new_record@));
        let total = input.len();
        let mut sorted: Vec<WorkspaceMetadataRecord> = Vec::new();
        let mut k: usize = 0;
        assert(all.take(0) =~= Seq::<RecordView>::empty());
        assert(record_views(sorted@) =~= Seq::<RecordView>::empty());
        while input.len() > 0
            invariant
                k + input@.len() == all.len(),
                all.len() == total,
                all == olds.push(nv),
                first_record(olds, nv.0) is None,
                nv == (
                    workspace@,
                    Some(path@),
                    true,
                    now,
                    template@,
                    match revision {
                        Some(x) => Some(x@),
                        None => None,
                    },
                ),
                olds == record_views(old(self).records@),
                self.path == old(self).path,
                record_views(input@) == all.skip(k as int),
                records_sorted(record_views(sorted@)),
                record_views(sorted@).to_multiset() == all.take(k as int).to_multiset(),
            decreases input@.len(),
        {
            let ghost before_input = input@;
            let x = input.remove(0);
            proof {
                assert(record_views(before_input)[0] == before_input[0]@);
                assert(x@ == all[k as int]);
                assert(all.take(k + 1) =~= all.take(k as int).push(x@));
                to_multiset_build(all.take(k as int), x@);
                assert(record_views(input@) =~= record_views(before_input).drop_first());
            }
            insert_record(&mut sorted, x);
            k = k + 1;
            assert(record_views(input@) =~= all.skip(k as int));
        }
        assert(all.take(k as int) =~= all);
        self.records = sorted;
        proof {
            to_multiset_build(olds, nv);
        }
        assert(recorded(olds, record_views(self.records@), nv));
    }

    /// Forget the records for a workspace.
    pub fn remove_workspace(&mut self, workspace: &WorkspaceName)
        ensures
            final(self).path == old(self).path,
            record_views(final(self).records@) == without_name(record_views(old(self).records@), workspace@),
    {
        let mut input: Vec<WorkspaceMetadataRecord> = Vec::new();
        std::mem::swap(&mut input, &mut self.records);
        let ghost all = record_views(input@);
        let total = input.len();
        let mut kept: Vec<WorkspaceMetadataRecord> = Vec::new();
        let mut k: usize = 0;
        assert(all.take(0) =~= Seq::<RecordView>::empty());
        assert(record_views(kept@) =~= Seq::<RecordView>::empty());
        while input.len() > 0
            invariant
                k + input@.len() == all.len(),
                all.len() == total,
                self.path == old(self).path,
                record_views(input@) == all.skip(k as int),
                record_views(kept@) == without_name(all.take(k as int), workspace@),
            decreases input@.len(),
        {
            let ghost before_input = input@;
            let x = input.remove(0);
            proof {
                assert(record_views(before_input)[0] == before_input[0]@);
                assert(x@ == all[k as int]);
                assert(all.take(k + 1).drop_last() =~= all.take(k as int));
                assert(record_views(input@) =~= record_views(before_input).drop_first());
            }
            if !x.name.same_as(workspace) {
                let ghost before = record_views(kept@);
                kept.push(x);
                assert(record_views(kept@) =~= before.push(all[k as int]));
            }
            k = k + 1;
            assert(record_views(input@) =~= all.skip(k as int));
        }
        assert(all.take(k as int) =~= all);
        self.records = kept;
    }

    /// Whether a record exists for a workspace.
    pub fn contains_workspace(&self, workspace: &WorkspaceName) -> (r: bool)
        ensures
            r == first_record(record_views(self.records@), workspace@) is Some,
    {
        proof {
            lemma_first_record(record_views(self.records@), workspace@);
        }
        match self.find(workspace) {
            Some(_) => true,
            None => false,
        }
    }

    fn find(&self, workspace: &WorkspaceName) -> (r: Option<usize>)
        ensures
            match r {
                Some(i) => first_record(record_views(self.records@), workspace@) == Some(i as int) && i < self.records@.len(),
                None => first_record(record_views(self.records@), workspace@) is None,
            },
    {
        let ghost s = record_views(self.records@);
        proof {
            lemma_first_record(s, workspace@);
        }
        let mut i: usize = 0;
        while i < self.records.len()
            invariant
                i <= self.records@.len(),
                s == record_views(self.records@),
                forall|k: int| 0 <= k < i ==> (#[trigger] s[k]).0 != workspace@,
            decreases self.records@.len() - i,
        {
            assert(s[i as int] == self.records@[i as int]@);
            if self.records[i].name.same_as(workspace) {
                proof {
                    lemma_first_record(s, workspace@);
                }
                return Some(i);
            }
            i += 1;
        }
        proof {
            lemma_first_record(s, workspace@);
        }
        None
    }

    /// The path recorded for a workspace, if its first record has one. No
    /// path does not mean no record: see `contains_workspace`.
    pub fn workspace_path(&self, workspace: &WorkspaceName) -> (r: Option<String>)
        ensures
            opt_view(r) == match first_record(record_views(self.records@), workspace@) {
                Some(i) => record_views(self.records@)[i].1,
                None => None,
            },
    {
        match self.find(workspace) {
            Some(i) => {
                proof {
                    lemma_first_record(record_views(self.records@), workspace@);
                }
                assert(record_views(self.records@)[i as int] == self.records@[i as int]@);
                clone_opt_string(&self.records[i].path)
            },
            None => None,
        }
    }

    /// When a workspace was created, from its first record.
    pub fn workspace_created_at(&self, workspace: &WorkspaceName) -> (r: Option<Timestamp>)
        ensures
            r == match first_record(record_views(self.records@), workspace@) {
                Some(i) => Some(record_views(self.records@)[i].3),
                None => None,
            },
    {
        match self.find(workspace) {
            Some(i) => {
                proof {
                    lemma_first_record(record_views(self.records@), workspace@);
                }
                assert(record_views(self.records@)[i as int] == self.records@[i as int]@);
                Some(self.records[i].created_at)
            },
            None => None,
        }
    }

    /// The recorded workspaces and their paths, in record order.
    pub fn entries(&self) -> (r: Vec<WorkspaceMetadataEntry>)
        ensures
            r@.len() == self.records@.len(),
            forall|k: int| 0 <= k < r@.len() ==> (#[trigger] r@[k]).name@ == self.records@[k].name@ && opt_view(r@[k].path)
                == opt_view(self.records@[k].path),
    {
        let mut out: Vec<WorkspaceMetadataEntry> = Vec::new();
        let mut i: usize = 0;
        while i < self.records.len()
            invariant
                i <= self.records@.len(),
                out@.len() == i,
                forall|k: int| 0 <= k < i ==> (#[trigger] out@[k]).name@ == self.records@[k].name@ && opt_view(out@[k].path)
                    == opt_view(self.records@[k].path),
            decreases self.records@.len() - i,
        {
            out.push(
                WorkspaceMetadataEntry {
                    name: self.records[i].name.clone(),
                    path: clone_opt_string(&self.records[i].path),
                },
            );
            i += 1;
        }
        out
    }
}

/// Whether the tool has a record for a workspace, and whether it holds a
/// path.
pub fn metadata_status(workspace: &WorkspaceName, metadata: &WorkspaceMetadataStore) -> (r: WorkspaceMetadataStatus)
    ensures
        r == match first_record(record_views(metadata.records@), workspace@) {
            None => WorkspaceMetadataStatus::MissingRecord,
            Some(i) => if record_views(metadata.records@)[i].1 is Some {
                WorkspaceMetadataStatus::PresentWithPath
            } else {
                WorkspaceMetadataStatus::PresentWithoutPath
            },
        },
{
    if !metadata.contains_workspace(workspace) {
        return WorkspaceMetadataStatus::MissingRecord;
    }
    if metadata.workspace_path(workspace).is_some() {
        WorkspaceMetadataStatus::PresentWithPath
    } else {
        WorkspaceMetadataStatus::PresentWithoutPath
    }
}

/// The record as the metadata file holds it, if its creation time can be
/// written: an absent or empty path is left out and no revision is empty.
pub open spec fn record_file_fields(record: RecordView) -> Option<(Seq<char>, Option<Seq<char>>, bool, Seq<char>, Seq<char>, Seq<char>)> {
    match rfc3339_text(record.3) {
        None => None,
        Some(t) => Some((
            record.0,
            normalized_path(record.1),
            record.2,
            t,
            record.4,
            match record.5 {
                Some(r) => r,
                None => Seq::empty(),
            },
        )),
    }
}

/// The parts of a file record.
pub open spec fn file_fields(f: WorkspaceMetadataRecordFile) -> (Seq<char>, Option<Seq<char>>, bool, Seq<char>, Seq<char>, Seq<char>) {
    (f.name@, opt_view(f.path), f.created_by_navi, f.created_at@, f.template@, f.revision@)
}

/// Write one record as the metadata file holds it.
pub fn record_file_of(record: &WorkspaceMetadataRecord, metadata_path: &str) -> (r: Result<WorkspaceMetadataRecordFile>)
    ensures
        match record_file_fields(record@) {
            Some(fields) => r matches Ok(f) && file_fields(f) == fields,
            None => r matches Err(Error::InvalidWorkspaceMetadata { path: p, message: m }) && p@ == metadata_path@
                && m@ == rfc3339_format_error(record@.3),
        },
{
    let created_at = match format_time(record.created_at) {
        Ok(t) => t,
        Err(m) => return Err(metadata_error(metadata_path, m)),
    };
    let path = match &record.path {
        Some(p) => match normalized_recorded_path(Some(p.as_str())) {
            Some(q) => Some(q.to_owned()),
            None => None,
        },
        None => None,
    };
    let revision = match &record.revision {
        Some(r) => r.clone(),
        None => String::new(),
    };
    Ok(
        WorkspaceMetadataRecordFile {
            name: record.name.as_str().to_owned(),
            path,
            created_by_navi: record.created_by_navi,
            created_at,
            template: record.template.as_str().to_owned(),
            revision,
        },
    )
}

impl WorkspaceMetadataStore {
    /// The directory the metadata file goes in.
    pub fn metadata_dir(&self) -> (r: Result<String>)
        ensures
            match super::paths::parent_of(self.path@) {
                Some(d) => r matches Ok(x) && x@ == d,
                None => r matches Err(Error::InvalidWorkspaceMetadata { path: p, message: m }) && p@ == self.path@
                    && m@ == "metadata path has no parent"@,
            },
    {
        match super::paths::path_parent(self.path.as_str()) {
            Some(d) => Ok(d),
            None => Err(
                Error::InvalidWorkspaceMetadata {
                    path: self.path.clone(),
                    message: "metadata path has no parent".to_owned(),
                },
            ),
        }
    }

    /// The records as the metadata file holds them, in order; the first
    /// record whose creation time cannot be written fails them all.
    pub fn file_records(&self) -> (r: Result<Vec<WorkspaceMetadataRecordFile>>)
        ensures
            match r {
                Ok(files) => files@.len() == self.records@.len() && forall|k: int| 0 <= k < files@.len() ==> record_file_fields(
                    (#[trigger] self.records@[k])@,
                ) == Some(file_fields(files@[k])),
                Err(e) => exists|k: int| 0 <= k < self.records@.len() && record_file_fields((#[trigger] self.records@[k])@) is None
                    && (e matches Error::InvalidWorkspaceMetadata { path: p, message: m } && p@ == self.path@ && m@
                    == rfc3339_format_error(self.records@[k]@.3)),
            },
    {
        let mut out: Vec<WorkspaceMetadataRecordFile> = Vec::new();
        let mut i: usize = 0;
        while i < self.records.len()
            invariant
                i <= self.records@.len(),
                out@.len() == i,
                forall|k: int| 0 <= k < i ==> record_file_fields((#[trigger] self.records@[k])@) == Some(file_fields(out@[k])),
            decreases self.records@.len() - i,
        {
            match record_file_of(&self.records[i], self.path.as_str()) {
                Ok(f) => out.push(f),
                Err(e) => return Err(e),
            }
            i += 1;
        }
        Ok(out)
    }
}

} // verus!
