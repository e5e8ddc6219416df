//! What `jj` prints, read back: workspace lists, revisions, versions and
//! diff statistics; and the command lines handed to it.

use vstd::prelude::*;
use vstd::string::*;

use crate::error::{Error, Result};
use crate::text::{
    append_range, char_is_whitespace, chars_of, contains_seq, contains_str, digits_value,
    is_ascii_digit, is_whitespace, join_parts, join_strings, lines, lines_of, parse_digits,
    push_char, split_fields, splitn_chars, str_equal, trim, trim_ws, views_of,
};
use crate::types::{
    is_valid_workspace_name, WorkspaceDiffSnapshot, WorkspaceDiffStatus,
    WorkspaceFreshnessSnapshot, WorkspaceFreshnessStatus, WorkspaceName,
};

verus! {

/// One workspace as `jj workspace list` reports it.
#[derive(Debug, PartialEq, Eq)]
pub struct JjWorkspaceListEntry {
    /// Workspace name.
    pub name: WorkspaceName,
    /// Whether it is the workspace of the current directory.
    pub is_current: bool,
    /// Short commit identifier of its working copy.
    pub commit_id: String,
    /// Short change identifier of its working copy.
    pub change_id: String,
    /// First line of the working copy's description.
    pub message: String,
}

/// One revision as `jj log` reports it.
#[derive(Debug, PartialEq, Eq)]
pub struct JjRevisionSummary {
    /// Short commit identifier.
    pub commit_id: String,
    /// Short change identifier.
    pub change_id: String,
    /// First line of the description.
    pub message: String,
}

/// A `jj` version.
#[derive(Debug, Clone, Copy, PartialEq, Eq, Structural)]
pub struct JjVersion {
    /// Major number.
    pub major: u64,
    /// Minor number.
    pub minor: u64,
    /// Patch number.
    pub patch: u64,
}

/// The oldest `jj` this tool works with.
pub open spec fn minimum_jj_version() -> JjVersion {
    JjVersion { major: 0, minor: 39, patch: 0 }
}

/// The oldest `jj` this tool works with, as text.
pub const MINIMUM_JJ_VERSION_STR: &'static str = "0.39.0";

/// The fields of a workspace list line: name, current flag, commit, change
/// and description, split at NUL characters.
pub open spec fn workspace_fields(line: Seq<char>) -> Seq<Seq<char>> {
    split_fields(line, '\0', 5)
}

/// Whether a workspace list line has its five fields and a `0` or `1` flag.
pub open spec fn workspace_line_well_formed(line: Seq<char>) -> bool {
    let f = workspace_fields(line);
    f.len() == 5 && (f[1] == seq!['0'] || f[1] == seq!['1'])
}

/// Whether a workspace list line can be read.
pub open spec fn workspace_line_ok(line: Seq<char>) -> bool {
    workspace_line_well_formed(line) && is_valid_workspace_name(workspace_fields(line)[0])
}

/// Whether `e` is the error for an unreadable workspace list line.
pub open spec fn workspace_line_error(e: Error, line: Seq<char>) -> bool {
    if !workspace_line_well_formed(line) {
        e matches Error::InvalidJjWorkspaceListEntry(m) && m@ == line
    } else {
        e matches Error::InvalidWorkspaceName(m) && m@ == workspace_fields(line)[0]
    }
}

/// Whether `e` holds what a readable workspace list line says.
pub open spec fn workspace_entry_of(e: JjWorkspaceListEntry, line: Seq<char>) -> bool {
    let f = workspace_fields(line);
    &&& e.name@ == f[0]
    &&& e.is_current == (f[1] == seq!['1'])
    &&& e.commit_id@ == f[2]
    &&& e.change_id@ == f[3]
    &&& e.message@ == f[4]
}

/// Read one line of `jj workspace list` output.
pub fn parse_workspace_line(line: &str) -> (r: Result<JjWorkspaceListEntry>)
    ensures
        workspace_line_ok(line@) ==> (r matches Ok(e) && workspace_entry_of(e, line@)),
        !workspace_line_ok(line@) ==> (r matches Err(e) && workspace_line_error(e, line@)),
{
    let parts = splitn_chars(line, '\0', 5);
    assert(views_of(parts@) == workspace_fields(line@));
    assert(views_of(parts@).len() == parts@.len());
    if parts.len() < 5 {
        assert(!workspace_line_well_formed(line@));
        return Err(Error::InvalidJjWorkspaceListEntry(line.to_owned()));
    }
    assert(views_of(parts@)[1] == parts@[1]@);
    let flag = parts[1].as_str();
    let is_zero = str_equal(flag, "0");
    let is_current = str_equal(flag, "1");
    proof {
        reveal_strlit("0");
        reveal_strlit("1");
        assert("0"@ =~= seq!['0']);
        assert("1"@ =~= seq!['1']);
    }
    if !is_zero && !is_current {
        return Err(Error::InvalidJjWorkspaceListEntry(line.to_owned()));
    }
    proof {
        reveal_strlit("0");
        reveal_strlit("1");
        assert("0"@ =~= seq!['0']);
        assert("1"@ =~= seq!['1']);
        crate::text::lemma_split_fields_len(line@, '\0', 5);
        assert(views_of(parts@)[0] == parts@[0]@);
        assert(views_of(parts@)[2] == parts@[2]@);
        assert(views_of(parts@)[3] == parts@[3]@);
        assert(views_of(parts@)[4] == parts@[4]@);
    }
    let name = match WorkspaceName::new(parts[0].as_str()) {
        Ok(n) => n,
        Err(e) => return Err(e),
    };
    let entry = JjWorkspaceListEntry {
        name,
        is_current,
        commit_id: parts[2].clone(),
        change_id: parts[3].clone(),
        message: parts[4].clone(),
    };
    assert(flag@ == workspace_fields(line@)[1]);
    assert(entry.is_current == (workspace_fields(line@)[1] == seq!['1']));
    assert(workspace_entry_of(entry, line@));
    Ok(entry)
}

/// The fields of a revision line: commit, change and description.
pub open spec fn revision_fields(line: Seq<char>) -> Seq<Seq<char>> {
    split_fields(line, '\0', 3)
}

/// Read one line of the revision listing.
pub fn parse_revision_line(line: &str) -> (r: Result<JjRevisionSummary>)
    ensures
        revision_fields(line@).len() == 3 ==> (r matches Ok(s) && s.commit_id@ == revision_fields(line@)[0]
            && s.change_id@ == revision_fields(line@)[1] && s.message@ == revision_fields(line@)[2]),
        revision_fields(line@).len() != 3 ==> (r matches Err(Error::InvalidJjWorkspaceListEntry(m)) && m@
            == line@),
{
    let parts = splitn_chars(line, '\0', 3);
    proof {
        crate::text::lemma_split_fields_len(line@, '\0', 3);
    }
    if parts.len() < 3 {
        return Err(Error::InvalidJjWorkspaceListEntry(line.to_owned()));
    }
    proof {
        assert(views_of(parts@)[0] == parts@[0]@);
        assert(views_of(parts@)[1] == parts@[1]@);
        assert(views_of(parts@)[2] == parts@[2]@);
    }
    Ok(
        JjRevisionSummary {
            commit_id: parts[0].clone(),
            change_id: parts[1].clone(),
            message: parts[2].clone(),
        },
    )
}

/// The non-empty lines among `ls`, in order.
pub open spec fn nonempty_lines(ls: Seq<Seq<char>>) -> Seq<Seq<char>>
    decreases ls.len(),
{
    if ls.len() == 0 {
        Seq::empty()
    } else {
        nonempty_lines(ls.drop_last()) + if ls.last().len() > 0 {
            seq![ls.last()]
        } else {
            Seq::empty()
        }
    }
}

/// The position of the first line that cannot be read, if any.
pub open spec fn first_bad_workspace_line(ls: Seq<Seq<char>>) -> Option<int>
    decreases ls.len(),
{
    if ls.len() == 0 {
        None
    } else {
        match first_bad_workspace_line(ls.drop_last()) {
            Some(j) => Some(j),
            None => if workspace_line_ok(ls.last()) {
                None
            } else {
                Some(ls.len() - 1)
            },
        }
    }
}

/// A first bad line stays first as lines are added.
proof fn lemma_first_bad_bounds(ls: Seq<Seq<char>>)
    ensures
        match first_bad_workspace_line(ls) {
            Some(j) => 0 <= j < ls.len() && !workspace_line_ok(ls[j]) && forall|k: int|
                0 <= k < j ==> workspace_line_ok(#[trigger] ls[k]),
            None => forall|k: int| 0 <= k < ls.len() ==> workspace_line_ok(#[trigger] ls[k]),
        },
    decreases ls.len(),
{
    if ls.len() > 0 {
        lemma_first_bad_bounds(ls.drop_last());
        assert forall|k: int| 0 <= k < ls.len() - 1 implies ls[k] == ls.drop_last()[k] by {}
    }
}

/// Read the output of `jj workspace list`: one workspace per non-empty
/// line; the first unreadable line fails the whole list.
pub fn parse_workspace_list(output: &str) -> (r: Result<Vec<JjWorkspaceListEntry>>)
    ensures
        match first_bad_workspace_line(nonempty_lines(lines_of(output@))) {
            Some(j) => r matches Err(e) && workspace_line_error(e, nonempty_lines(lines_of(output@))[j]),
            None => r matches Ok(v) && v@.len() == nonempty_lines(lines_of(output@)).len() && forall|k: int|
                0 <= k < v@.len() ==> workspace_entry_of(#[trigger] v@[k], nonempty_lines(lines_of(output@))[k]),
        },
{
    let ls = lines(output);
    let ghost all = ls@.map_values(|l: Vec<char>| l@);
    let mut out: Vec<JjWorkspaceListEntry> = Vec::new();
    let mut i: usize = 0;
    assert(all.take(0) =~= Seq::<Seq<char>>::empty());
    while i < ls.len()
        invariant
            i <= ls@.len(),
            all == ls@.map_values(|l: Vec<char>| l@),
            all == lines_of(output@),
            first_bad_workspace_line(nonempty_lines(all.take(i as int))) is None,
            out@.len() == nonempty_lines(all.take(i as int)).len(),
            forall|k: int| 0 <= k < out@.len() ==> workspace_entry_of(#[trigger] out@[k], nonempty_lines(all.take(i as int))[k]),
        decreases ls@.len() - i,
    {
        let ghost before = nonempty_lines(all.take(i as int));
        assert(all.take(i + 1).drop_last() =~= all.take(i as int));
        assert(all.take(i + 1).last() == ls@[i as int]@);
        if ls[i].len() > 0 {
            let mut line = String::new();
            append_range(&mut line, &ls[i], 0, ls[i].len());
            assert(ls@[i as int]@.subrange(0, ls@[i as int]@.len() as int) =~= ls@[i as int]@);
            assert(nonempty_lines(all.take(i + 1)) == before.push(line@));
            match parse_workspace_line(line.as_str()) {
                Ok(e) => {
                    proof {
                        let next = before.push(line@);
                        assert(next.drop_last() =~= before);
                        assert(next.last() == line@);
                    }
                    out.push(e);
                },
                Err(e) => {
                    proof {
                        let next = before.push(line@);
                        assert(next.drop_last() =~= before);
                        assert(next.last() == line@);
                        assert(first_bad_workspace_line(next) == Some(before.len() as int));
                        lemma_nonempty_prefix_first_bad(all, i as int + 1, before.len() as int);
                    }
                    return Err(e);
                },
            }
        } else {
            assert(nonempty_lines(all.take(i + 1)) == before);
        }
        i += 1;
    }
    assert(all.take(i as int) =~= all);
    Ok(out)
}

/// A bad line found in a prefix is the first bad line of the whole list.
proof fn lemma_nonempty_prefix_first_bad(all: Seq<Seq<char>>, n: int, j: int)
    requires
        0 <= n <= all.len(),
        first_bad_workspace_line(nonempty_lines(all.take(n))) == Some(j),
    ensures
        first_bad_workspace_line(nonempty_lines(all)) == Some(j),
        nonempty_lines(all)[j] == nonempty_lines(all.take(n))[j],
    decreases all.len() - n,
{
    lemma_first_bad_bounds(nonempty_lines(all.take(n)));
    if n < all.len() {
        assert(all.take(n + 1).drop_last() =~= all.take(n));
        let next = nonempty_lines(all.take(n + 1));
        assert(first_bad_workspace_line(next) == Some(j)) by {
            if all.take(n + 1).last().len() > 0 {
                assert(next.drop_last() =~= nonempty_lines(all.take(n)));
            } else {
                assert(next =~= nonempty_lines(all.take(n)));
            }
        }
        lemma_first_bad_bounds(next);
        lemma_nonempty_prefix_first_bad(all, n + 1, j);
        if all.take(n + 1).last().len() > 0 {
            assert(next[j] == nonempty_lines(all.take(n))[j]);
        }
    } else {
        assert(all.take(n) =~= all);
    }
}

/// The name of the current workspace, from the output of a workspace list
/// that prints only the current one: its first non-empty line.
pub fn current_workspace_name(output: &str) -> (r: Result<WorkspaceName>)
    ensures
        nonempty_lines(lines_of(output@)).len() == 0 ==> r matches Err(Error::OrphanedWorkspace),
        nonempty_lines(lines_of(output@)).len() > 0 ==> {
            let name = nonempty_lines(lines_of(output@))[0];
            &&& is_valid_workspace_name(name) ==> (r matches Ok(n) && n@ == name)
            &&& !is_valid_workspace_name(name) ==> (r matches Err(Error::InvalidWorkspaceName(m)) && m@ == name)
        },
{
    let ls = lines(output);
    let ghost all = ls@.map_values(|l: Vec<char>| l@);
    let mut i: usize = 0;
    assert(all.take(0) =~= Seq::<Seq<char>>::empty());
    while i < ls.len()
        invariant
            i <= ls@.len(),
            all == ls@.map_values(|l: Vec<char>| l@),
            all == lines_of(output@),
            nonempty_lines(all.take(i as int)).len() == 0,
        decreases ls@.len() - i,
    {
        assert(all.take(i + 1).drop_last() =~= all.take(i as int));
        if ls[i].len() > 0 {
            let mut line = String::new();
            append_range(&mut line, &ls[i], 0, ls[i].len());
            proof {
                assert(ls@[i as int]@.subrange(0, ls@[i as int]@.len() as int) =~= ls@[i as int]@);
                assert(nonempty_lines(all.take(i + 1)) =~= seq![line@]);
                lemma_nonempty_first(all, i as int + 1, line@);
            }
            return WorkspaceName::new(line.as_str());
        }
        i += 1;
    }
    assert(all.take(i as int) =~= all);
    Err(Error::OrphanedWorkspace)
}

/// The first non-empty line of a prefix is the first of the whole list.
proof fn lemma_nonempty_first(all: Seq<Seq<char>>, n: int, first: Seq<char>)
    requires
        0 <= n <= all.len(),
        nonempty_lines(all.take(n)).len() > 0,
        nonempty_lines(all.take(n))[0] == first,
    ensures
        nonempty_lines(all).len() > 0,
        nonempty_lines(all)[0] == first,
    decreases all.len() - n,
{
    if n < all.len() {
        assert(all.take(n + 1).drop_last() =~= all.take(n));
        lemma_nonempty_first(all, n + 1, first);
    } else {
        assert(all.take(n) =~= all);
    }
}

/// The words of `s`, as `str::split_whitespace` yields them, for the rest of
/// the text after a word begun with `cur`.
pub open spec fn words_from(s: Seq<char>, cur: Seq<char>) -> Seq<Seq<char>>
    decreases s.len(),
{
    if s.len() == 0 {
        if cur.len() > 0 {
            seq![cur]
        } else {
            Seq::empty()
        }
    } else if char_is_whitespace(s[0]) {
        (if cur.len() > 0 {
            seq![cur]
        } else {
            Seq::empty()
        }) + words_from(s.drop_first(), Seq::empty())
    } else {
        words_from(s.drop_first(), cur.push(s[0]))
    }
}

/// The whitespace-separated words of `s`.
pub open spec fn words(s: Seq<char>) -> Seq<Seq<char>> {
    words_from(s, Seq::empty())
}

/// The words of a text, as `str::split_whitespace` yields them.
pub fn split_words(s: &str) -> (r: Vec<String>)
    ensures
        views_of(r@) == words(s@),
{
    let v = chars_of(s);
    let mut out: Vec<String> = Vec::new();
    let mut cur = String::new();
    let mut i: usize = 0;
    assert(v@.skip(0) =~= v@);
    assert(views_of(out@) =~= Seq::<Seq<char>>::empty());
    while i < v.len()
        invariant
            i <= v.len(),
            v@ == s@,
            views_of(out@) + words_from(v@.skip(i as int), cur@) == words(s@),
        decreases v.len() - i,
    {
        let ghost rest = v@.skip(i as int);
        assert(rest.drop_first() =~= v@.skip(i + 1));
        assert(rest[0] == v@[i as int]);
        let ghost before = views_of(out@);
        if is_whitespace(v[i]) {
            if cur.as_str().unicode_len() > 0 {
                let word = cur;
                out.push(word);
                cur = String::new();
                assert(views_of(out@) =~= before.push(word@));
                assert(views_of(out@) + words_from(v@.skip(i + 1), cur@) =~= before + words_from(rest, word@));
            } else {
                assert(cur@ =~= Seq::<char>::empty());
            }
        } else {
            push_char(&mut cur, v[i]);
        }
        i += 1;
    }
    let ghost before = views_of(out@);
    assert(v@.skip(i as int) =~= Seq::<char>::empty());
    if cur.as_str().unicode_len() > 0 {
        let word = cur;
        out.push(word);
        assert(views_of(out@) =~= before.push(word@));
    }
    out
}

/// The first word that starts with a digit.
pub open spec fn first_version_word(ws: Seq<Seq<char>>) -> Option<Seq<char>>
    decreases ws.len(),
{
    if ws.len() == 0 {
        None
    } else if ws[0].len() > 0 && is_ascii_digit(ws[0][0]) {
        Some(ws[0])
    } else {
        first_version_word(ws.drop_first())
    }
}

/// The number of leading digits of `s`.
pub open spec fn digit_prefix_len(s: Seq<char>) -> nat
    decreases s.len(),
{
    if s.len() > 0 && is_ascii_digit(s[0]) {
        1 + digit_prefix_len(s.drop_first())
    } else {
        0
    }
}

/// A version component: its leading digits, as a `u64`.
pub open spec fn version_component(s: Seq<char>) -> Option<u64> {
    let d = s.take(digit_prefix_len(s) as int);
    if d.len() == 0 || digits_value(d) > u64::MAX {
        None
    } else {
        Some(digits_value(d) as u64)
    }
}

/// Read a version component: the number its leading digits spell.
pub fn parse_version_component(component: &str) -> (r: Option<u64>)
    ensures
        r == version_component(component@),
{
    let v = chars_of(component);
    let mut i: usize = 0;
    assert(v@.skip(0) =~= v@);
    while i < v.len() && '0' <= v[i] && v[i] <= '9'
        invariant
            i <= v.len(),
            v@ == component@,
            digit_prefix_len(component@) == i + digit_prefix_len(v@.skip(i as int)),
            forall|j: int| 0 <= j < i ==> is_ascii_digit(#[trigger] v@[j]),
        decreases v.len() - i,
    {
        assert(v@.skip(i as int).drop_first() =~= v@.skip(i + 1));
        i += 1;
    }
    assert(digit_prefix_len(v@.skip(i as int)) == 0);
    assert(v@.subrange(0, i as int) =~= component@.take(i as int));
    if i == 0 {
        return None;
    }
    parse_digits(&v, 0, i, u64::MAX)
}

/// The version that `jj --version` output names: the first word that
/// starts with a digit, read as `major.minor.patch`.
pub open spec fn jj_version_of(output: Seq<char>) -> Option<JjVersion> {
    match first_version_word(words(output)) {
        None => None,
        Some(w) => {
            let f = split_fields(w, '.', 4);
            if f.len() < 3 {
                None
            } else {
                match (version_component(f[0]), version_component(f[1]), version_component(f[2])) {
                    (Some(a), Some(b), Some(c)) => Some(JjVersion { major: a, minor: b, patch: c }),
                    _ => None,
                }
            }
        },
    }
}

/// Read the version from `jj --version` output.
pub fn parse_jj_version(output: &str) -> (r: Option<JjVersion>)
    ensures
        r == jj_version_of(output@),
{
    let ws = split_words(output);
    let mut i: usize = 0;
    assert(views_of(ws@).skip(0) =~= views_of(ws@));
    while i < ws.len()
        invariant
            i <= ws@.len(),
            views_of(ws@) == words(output@),
            first_version_word(views_of(ws@)) == first_version_word(views_of(ws@).skip(i as int)),
        decreases ws@.len() - i,
    {
        let ghost rest = views_of(ws@).skip(i as int);
        assert(rest[0] == ws@[i as int]@);
        let w = ws[i].as_str();
        if w.unicode_len() > 0 {
            let c = w.get_char(0);
            if '0' <= c && c <= '9' {
                assert(rest.len() > 0 && rest[0].len() > 0 && is_ascii_digit(rest[0][0]));
                assert(first_version_word(rest) == Some(w@));
                assert(first_version_word(words(output@)) == Some(w@));
                let parts = splitn_chars(w, '.', 4);
                proof {
                    crate::text::lemma_split_fields_len(w@, '.', 4);
                }
                if parts.len() < 3 {
                    return None;
                }
                proof {
                    assert(views_of(parts@)[0] == parts@[0]@);
                    assert(views_of(parts@)[1] == parts@[1]@);
                    assert(views_of(parts@)[2] == parts@[2]@);
                }
                let major = match parse_version_component(parts[0].as_str()) {
                    Some(x) => x,
                    None => return None,
                };
                let minor = match parse_version_component(parts[1].as_str()) {
                    Some(x) => x,
                    None => return None,
                };
                let patch = match parse_version_component(parts[2].as_str()) {
                    Some(x) => x,
                    None => return None,
                };
                return Some(JjVersion { major, minor, patch });
            }
        }
        assert(rest.drop_first() =~= views_of(ws@).skip(i + 1));
        i += 1;
    }
    None
}

/// Whether `a` comes before `b`, comparing major, minor and patch in turn.
pub open spec fn version_before(a: JjVersion, b: JjVersion) -> bool {
    a.major < b.major || (a.major == b.major && (a.minor < b.minor || (a.minor == b.minor
        && a.patch < b.patch)))
}

/// Check the output of `jj --version` against the oldest supported `jj`.
pub fn ensure_supported_version(output: &str) -> (r: Result<()>)
    ensures
        match jj_version_of(output@) {
            Some(v) => !version_before(v, minimum_jj_version()),
            None => false,
        } ==> r is Ok,
        !match jj_version_of(output@) {
            Some(v) => !version_before(v, minimum_jj_version()),
            None => false,
        } ==> (r matches Err(Error::UnsupportedJjVersion { found, minimum }) && found@ == trim_ws(output@)
            && minimum@ == MINIMUM_JJ_VERSION_STR@),
{
    let found = trim(output);
    match parse_jj_version(output) {
        None => Err(Error::UnsupportedJjVersion { found, minimum: MINIMUM_JJ_VERSION_STR.to_owned() }),
        Some(v) => {
            let min = JjVersion { major: 0, minor: 39, patch: 0 };
            let before = v.major < min.major || (v.major == min.major && (v.minor < min.minor || (
            v.minor == min.minor && v.patch < min.patch)));
            if before {
                Err(Error::UnsupportedJjVersion { found, minimum: MINIMUM_JJ_VERSION_STR.to_owned() })
            } else {
                Ok(())
            }
        },
    }
}

/// The stderr of a failed command when it says anything, else `fallback`.
pub open spec fn meaningful_text(stderr: Seq<char>, fallback: Seq<char>) -> Seq<char> {
    if trim_ws(stderr).len() == 0 {
        fallback
    } else {
        trim_ws(stderr)
    }
}

/// The trimmed stderr of a failed command, or `fallback` when it is blank.
pub fn meaningful_stderr(stderr: &str, fallback: &str) -> (r: String)
    ensures
        r@ == meaningful_text(stderr@, fallback@),
{
    let t = trim(stderr);
    if t.as_str().unicode_len() == 0 {
        fallback.to_owned()
    } else {
        t
    }
}

/// A `jj` command line as text.
pub fn format_command(args: &Vec<String>) -> (r: String)
    ensures
        r@ == "jj "@ + join_parts(views_of(args@), " "@),
{
    let joined = join_strings(args, " ");
    let mut out = String::new();
    out.append("jj ");
    out.append(joined.as_str());
    out
}

/// The arguments of `jj workspace add` for a new workspace.
pub fn workspace_add_args(workspace: &WorkspaceName, target_root: &str, revision: Option<&str>) -> (r: Vec<String>)
    ensures
        views_of(r@) == seq!["workspace"@, "add"@, "--name"@, workspace@] + match revision {
            Some(rev) => seq!["-r"@, rev@],
            None => Seq::<Seq<char>>::empty(),
        } + seq![target_root@],
{
    let mut args: Vec<String> = Vec::new();
    args.push("workspace".to_owned());
    args.push("add".to_owned());
    args.push("--name".to_owned());
    args.push(workspace.as_str().to_owned());
    if let Some(rev) = revision {
        args.push("-r".to_owned());
        args.push(rev.to_owned());
    }
    args.push(target_root.to_owned());
    assert(views_of(args@) =~= seq!["workspace"@, "add"@, "--name"@, workspace@] + match revision {
        Some(rev) => seq!["-r"@, rev@],
        None => Seq::<Seq<char>>::empty(),
    } + seq![target_root@]);
    args
}

/// The outcome of a `jj` command run with a deadline.
#[derive(Debug, PartialEq, Eq)]
pub enum TimedCommandResult {
    /// The command succeeded; its stdout.
    Success(String),
    /// The command failed; its trimmed stderr.
    Failure(String),
    /// The deadline passed first.
    TimedOut,
    /// The command could not be run; the error's text.
    Io(String),
}

/// Whether a workspace could be made current, from the outcome of
/// `jj util snapshot` in it.
pub fn snapshot_freshness(result: &TimedCommandResult) -> (r: WorkspaceFreshnessSnapshot)
    ensures
        match result {
            TimedCommandResult::Success(_) => r.status == WorkspaceFreshnessStatus::Current && r.reason is None,
            TimedCommandResult::Failure(stderr) => r.status == WorkspaceFreshnessStatus::Failed && (r.reason
                matches Some(m) && m@ == meaningful_text(stderr@, "jj could not make the workspace current"@)),
            TimedCommandResult::TimedOut => r.status == WorkspaceFreshnessStatus::TimedOut && (r.reason
                matches Some(m) && m@ == "workspace could not be made current before the deadline"@),
            TimedCommandResult::Io(e) => r.status == WorkspaceFreshnessStatus::Failed && (r.reason matches Some(
                m,
            ) && m@ == "failed to run jj while making the workspace current: "@ + e@),
        },
{
    match result {
        TimedCommandResult::Success(_) => WorkspaceFreshnessSnapshot::current(),
        TimedCommandResult::Failure(stderr) => {
            let reason = meaningful_stderr(stderr.as_str(), "jj could not make the workspace current");
            WorkspaceFreshnessSnapshot::failed(reason.as_str())
        },
        TimedCommandResult::TimedOut => WorkspaceFreshnessSnapshot::timed_out(),
        TimedCommandResult::Io(e) => {
            let mut reason = String::new();
            reason.append("failed to run jj while making the workspace current: ");
            reason.append(e.as_str());
            WorkspaceFreshnessSnapshot::failed(reason.as_str())
        },
    }
}

/// The number of digits at the end of `s`.
pub open spec fn trailing_digit_len(s: Seq<char>) -> nat
    decreases s.len(),
{
    if s.len() > 0 && is_ascii_digit(s.last()) {
        1 + trailing_digit_len(s.drop_last())
    } else {
        0
    }
}

/// The last run of digits in `s`, if there is one.
pub open spec fn last_digit_run(s: Seq<char>) -> Option<Seq<char>>
    decreases s.len(),
{
    if s.len() == 0 {
        None
    } else if is_ascii_digit(s.last()) {
        Some(s.subrange(s.len() - trailing_digit_len(s), s.len() as int))
    } else {
        last_digit_run(s.drop_last())
    }
}

/// The text of `line` before the first `marker`, or all of it.
pub open spec fn text_before(line: Seq<char>, marker: Seq<char>) -> Seq<char> {
    match crate::text::first_occurrence(line, marker, 0) {
        Some(i) => line.take(i),
        None => line,
    }
}

/// The number that stands last before `marker` in `line`, if it fits a
/// `u32`.
pub open spec fn number_before_marker(line: Seq<char>, marker: Seq<char>) -> Option<u32> {
    match last_digit_run(text_before(line, marker)) {
        None => None,
        Some(d) => if digits_value(d) <= u32::MAX {
            Some(digits_value(d) as u32)
        } else {
            None
        },
    }
}

proof fn lemma_trailing_digits(s: Seq<char>, k: int, j: int)
    requires
        0 <= k <= j <= s.len(),
        forall|x: int| k <= x < j ==> is_ascii_digit(#[trigger] s[x]),
        k == 0 || !is_ascii_digit(s[k - 1]),
    ensures
        trailing_digit_len(s.take(j)) == j - k,
    decreases j - k,
{
    if j > k {
        assert(s.take(j).drop_last() =~= s.take(j - 1));
        lemma_trailing_digits(s, k, j - 1);
    } else if k > 0 {
        assert(s.take(j).last() == s[k - 1]);
    }
}

proof fn lemma_last_run_skips(s: Seq<char>, j: int, e: int)
    requires
        0 <= j <= e <= s.len(),
        forall|x: int| j <= x < e ==> !is_ascii_digit(#[trigger] s[x]),
    ensures
        last_digit_run(s.take(e)) == last_digit_run(s.take(j)),
    decreases e - j,
{
    if e > j {
        assert(s.take(e).drop_last() =~= s.take(e - 1));
        assert(s.take(e).last() == s[e - 1]);
        lemma_last_run_skips(s, j, e - 1);
    }
}

/// The number that stands last before `marker` in `line`, as the diff
/// statistics print counts.
pub fn number_before(line: &str, marker: &str) -> (r: Option<u32>)
    ensures
        r == number_before_marker(line@, marker@),
{
    let v = chars_of(line);
    let m = chars_of(marker);
    let e = match crate::text::find_seq_from(&v, &m, 0) {
        Some(i) => i,
        None => v.len(),
    };
    let ghost t = text_before(line@, marker@);
    proof {
        crate::text::lemma_first_occurrence(v@, m@, 0);
        assert(v@.take(e as int) =~= t);
    }
    let mut j = e;
    while j > 0 && !('0' <= v[j - 1] && v[j - 1] <= '9')
        invariant
            j <= e <= v.len(),
            forall|x: int| j <= x < e ==> !is_ascii_digit(#[trigger] v@[x]),
        decreases j,
    {
        j -= 1;
    }
    proof {
        lemma_last_run_skips(v@, j as int, e as int);
    }
    if j == 0 {
        assert(v@.take(0) =~= Seq::<char>::empty());
        return None;
    }
    let mut k = j;
    while k > 0 && '0' <= v[k - 1] && v[k - 1] <= '9'
        invariant
            k <= j <= v.len(),
            forall|x: int| k <= x < j ==> is_ascii_digit(#[trigger] v@[x]),
        decreases k,
    {
        k -= 1;
    }
    proof {
        lemma_trailing_digits(v@, k as int, j as int);
        assert(v@.take(j as int).last() == v@[j - 1]);
        assert(v@.take(j as int).subrange(k as int, j as int) =~= v@.subrange(k as int, j as int));
    }
    match parse_digits(&v, k, j, 0xffff_ffff) {
        Some(x) => Some(x as u32),
        None => None,
    }
}

/// The last line of `ls` that holds `pattern`.
pub open spec fn last_line_with(ls: Seq<Seq<char>>, pattern: Seq<char>) -> Option<Seq<char>>
    decreases ls.len(),
{
    if ls.len() == 0 {
        None
    } else if contains_seq(ls.last(), pattern) {
        Some(ls.last())
    } else {
        last_line_with(ls.drop_last(), pattern)
    }
}

/// The diff statistics that `jj diff --stat` output gives: its last summary
/// line, read for files, insertions and deletions.
pub open spec fn diff_stat_of(output: Seq<char>) -> WorkspaceDiffSnapshot {
    match last_line_with(lines_of(output), " changed"@) {
        None => WorkspaceDiffSnapshot {
            status: WorkspaceDiffStatus::Unknown,
            files_changed: None,
            insertions: None,
            deletions: None,
        },
        Some(line) => WorkspaceDiffSnapshot {
            status: WorkspaceDiffStatus::Available,
            files_changed: number_before_marker(line, " file"@),
            insertions: number_before_marker(line, " insertion"@),
            deletions: number_before_marker(line, " deletion"@),
        },
    }
}

/// Read `jj diff --stat` output.
pub fn parse_diff_stat(output: &str) -> (r: WorkspaceDiffSnapshot)
    ensures
        r == diff_stat_of(output@),
{
    let ls = lines(output);
    let ghost all = ls@.map_values(|l: Vec<char>| l@);
    let mut i = ls.len();
    assert(all.take(i as int) =~= all);
    while i > 0
        invariant
            i <= ls@.len(),
            all == ls@.map_values(|l: Vec<char>| l@),
            all == lines_of(output@),
            last_line_with(all, " changed"@) == last_line_with(all.take(i as int), " changed"@),
        decreases i,
    {
        let mut line = String::new();
        append_range(&mut line, &ls[i - 1], 0, ls[i - 1].len());
        proof {
            assert(ls@[i - 1]@.subrange(0, ls@[i - 1]@.len() as int) =~= ls@[i - 1]@);
            assert(all.take(i as int).last() == line@);
            assert(all.take(i as int).drop_last() =~= all.take(i - 1));
        }
        if contains_str(line.as_str(), " changed") {
            return WorkspaceDiffSnapshot {
                status: WorkspaceDiffStatus::Available,
                files_changed: number_before(line.as_str(), " file"),
                insertions: number_before(line.as_str(), " insertion"),
                deletions: number_before(line.as_str(), " deletion"),
            };
        }
        i -= 1;
    }
    WorkspaceDiffSnapshot::unknown()
}

/// The diff statistics from the outcome of `jj diff --stat`: read when it
/// succeeded, unknown otherwise.
pub fn diff_from_result(result: &TimedCommandResult) -> (r: WorkspaceDiffSnapshot)
    ensures
        match result {
            TimedCommandResult::Success(stdout) => r == diff_stat_of(stdout@),
            _ => r == WorkspaceDiffSnapshot::unknown_spec(),
        },
{
    match result {
        TimedCommandResult::Success(stdout) => parse_diff_stat(stdout.as_str()),
        _ => WorkspaceDiffSnapshot::unknown(),
    }
}

/// Read the revision listing: one revision per non-empty line; the first
/// unreadable line fails the whole list.
pub fn parse_revisions(output: &str) -> (r: Result<Vec<JjRevisionSummary>>)
    ensures
        (forall|k: int| 0 <= k < nonempty_lines(lines_of(output@)).len() ==> revision_fields(
            #[trigger] nonempty_lines(lines_of(output@))[k],
        ).len() == 3) <==> r is Ok,
        r matches Ok(v) ==> v@.len() == nonempty_lines(lines_of(output@)).len() && forall|k: int|
            0 <= k < v@.len() ==> (#[trigger] v@[k]).commit_id@ == revision_fields(nonempty_lines(lines_of(output@))[k])[0]
                && v@[k].change_id@ == revision_fields(nonempty_lines(lines_of(output@))[k])[1]
                && v@[k].message@ == revision_fields(nonempty_lines(lines_of(output@))[k])[2],
        r matches Err(e) ==> exists|j: int| 0 <= j < nonempty_lines(lines_of(output@)).len()
            && revision_fields(#[trigger] nonempty_lines(lines_of(output@))[j]).len() != 3
            && (forall|k: int| 0 <= k < j ==> revision_fields(#[trigger] nonempty_lines(lines_of(output@))[k]).len() == 3)
            && (e matches Error::InvalidJjWorkspaceListEntry(m) && m@ == nonempty_lines(lines_of(output@))[j]),
{
    let ls = lines(output);
    let ghost all = ls@.map_values(|l: Vec<char>| l@);
    let mut out: Vec<JjRevisionSummary> = Vec::new();
    let mut i: usize = 0;
    assert(all.take(0) =~= Seq::<Seq<char>>::empty());
    while i < ls.len()
        invariant
            i <= ls@.len(),
            all == ls@.map_values(|l: Vec<char>| l@),
            all == lines_of(output@),
            forall|k: int| 0 <= k < nonempty_lines(all.take(i as int)).len() ==> revision_fields(
                #[trigger] nonempty_lines(all.take(i as int))[k],
            ).len() == 3,
            out@.len() == nonempty_lines(all.take(i as int)).len(),
            forall|k: int| 0 <= k < out@.len() ==> (#[trigger] out@[k]).commit_id@ == revision_fields(nonempty_lines(all.take(i as int))[k])[0]
                && out@[k].change_id@ == revision_fields(nonempty_lines(all.take(i as int))[k])[1]
                && out@[k].message@ == revision_fields(nonempty_lines(all.take(i as int))[k])[2],
        decreases ls@.len() - i,
    {
        let ghost before = nonempty_lines(all.take(i as int));
        assert(all.take(i + 1).drop_last() =~= all.take(i as int));
        assert(all.take(i + 1).last() == ls@[i as int]@);
        if ls[i].len() > 0 {
            let mut line = String::new();
            append_range(&mut line, &ls[i], 0, ls[i].len());
            assert(ls@[i as int]@.subrange(0, ls@[i as int]@.len() as int) =~= ls@[i as int]@);
            assert(nonempty_lines(all.take(i + 1)) == before.push(line@));
            match parse_revision_line(line.as_str()) {
                Ok(rev) => {
                    out.push(rev);
                },
                Err(e) => {
                    proof {
                        lemma_nonempty_prefix_line(all, i as int + 1, before.len() as int);
                        assert forall|k: int| 0 <= k < before.len() implies nonempty_lines(all)[k] == before[k] by {
                            lemma_nonempty_prefix_line(all, i as int, k);
                        }
                        let j = before.len() as int;
                        assert(nonempty_lines(all)[j] == line@);
                        assert(revision_fields(nonempty_lines(all)[j]).len() != 3);
                        assert(forall|k: int| 0 <= k < j ==> revision_fields(#[trigger] nonempty_lines(lines_of(output@))[k]).len() == 3) by {
                            assert forall|k: int| 0 <= k < j implies revision_fields(#[trigger] nonempty_lines(lines_of(output@))[k]).len() == 3 by {
                                assert(nonempty_lines(all)[k] == before[k]);
                            }
                        }
                    }
                    return Err(e);
                },
            }
        } else {
            assert(nonempty_lines(all.take(i + 1)) == before);
        }
        i += 1;
    }
    assert(all.take(i as int) =~= all);
    Ok(out)
}

/// The non-empty lines of a prefix begin the non-empty lines of the whole.
proof fn lemma_nonempty_prefix_line(all: Seq<Seq<char>>, n: int, j: int)
    requires
        0 <= n <= all.len(),
        0 <= j < nonempty_lines(all.take(n)).len(),
    ensures
        j < nonempty_lines(all).len(),
        nonempty_lines(all)[j] == nonempty_lines(all.take(n))[j],
    decreases all.len() - n,
{
    if n < all.len() {
        assert(all.take(n + 1).drop_last() =~= all.take(n));
        lemma_nonempty_prefix_line(all, n + 1, j);
    } else {
        assert(all.take(n) =~= all);
    }
}

/// The root of a workspace from `jj workspace root` output: the trimmed
/// text, which must not be empty.
pub fn workspace_root_from_output(output: &str, args: &Vec<String>) -> (r: Result<String>)
    ensures
        trim_ws(output@).len() > 0 ==> (r matches Ok(root) && root@ == trim_ws(output@)),
        trim_ws(output@).len() == 0 ==> (r matches Err(Error::JjCommandFailed { command, stderr })
            && command@ == "jj "@ + join_parts(views_of(args@), " "@) && stderr@
            == "jj returned an empty workspace root"@),
{
    let root = trim(output);
    if root.as_str().unicode_len() == 0 {
        return Err(
            Error::JjCommandFailed {
                command: format_command(args),
                stderr: "jj returned an empty workspace root".to_owned(),
            },
        );
    }
    Ok(root)
}

} // verus!
