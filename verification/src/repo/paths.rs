//! Where workspaces live: names derived from paths, planned paths, and the
//! choice among the places a workspace's path can come from.
//!
//! Paths are handled as their text.

use vstd::prelude::*;
use vstd::string::*;

use crate::error::{Error, Result};
use crate::text::{chars_of, str_equal};

use super::metadata::{first_record, opt_view, record_views, WorkspaceMetadataStore};
use crate::types::{
    render_template, WorkspaceListStatus, WorkspaceMetadataStatus, WorkspaceName,
    WorkspacePathSource, WorkspacePathState, WorkspaceTemplate,
};

verus! {

/// The name of the workspace a repository starts with.
pub const DEFAULT_WORKSPACE_NAME: &'static str = "default";

/// The last component of a path, as `Path::file_name` gives it.
pub uninterp spec fn file_name_of(path: Seq<char>) -> Option<Seq<char>>;

/// A path without its last component, as `Path::parent` gives it.
pub uninterp spec fn parent_of(path: Seq<char>) -> Option<Seq<char>>;

/// A path joined to a base, as `Path::join` does it on Unix: an absolute
/// path replaces the base; otherwise the path is appended, after a `/`
/// where the base is not empty and does not end with one.
pub open spec fn joined_path(base: Seq<char>, path: Seq<char>) -> Seq<char> {
    if is_absolute_path(path) {
        path
    } else if base.len() == 0 || base.last() == '/' {
        base + path
    } else {
        base + "/"@ + path
    }
}

/// The relative path from `base` to `path`, as `pathdiff::diff_paths` gives
/// it.
pub uninterp spec fn relative_path(path: Seq<char>, base: Seq<char>) -> Option<Seq<char>>;

/// Whether `path` begins with all the components of `base`, as
/// `Path::starts_with` decides.
pub uninterp spec fn path_has_prefix(path: Seq<char>, base: Seq<char>) -> bool;

/// Whether a path is absolute on Unix: it starts at the root.
pub open spec fn is_absolute_path(path: Seq<char>) -> bool {
    path.len() > 0 && path[0] == '/'
}

/// Calls `Path::file_name`; the name comes back as text.
#[verifier::external_body]
pub(crate) fn path_file_name(path: &str) -> (r: Option<String>)
    ensures
        match r {
            Some(n) => file_name_of(path@) == Some(n@),
            None => file_name_of(path@) is None,
        },
{
    std::path::Path::new(path).file_name().map(|n| n.to_string_lossy().into_owned())
}

/// Calls `Path::parent`; the parent comes back as text.
#[verifier::external_body]
pub(crate) fn path_parent(path: &str) -> (r: Option<String>)
    ensures
        match r {
            Some(p) => parent_of(path@) == Some(p@),
            None => parent_of(path@) is None,
        },
{
    std::path::Path::new(path).parent().map(|p| p.to_string_lossy().into_owned())
}

/// Whether a path is absolute, as `Path::is_absolute` decides on Unix: it
/// starts at the root.
pub(crate) fn path_is_absolute(path: &str) -> (r: bool)
    ensures
        r == is_absolute_path(path@),
{
    path.unicode_len() > 0 && path.get_char(0) == '/'
}

/// A path joined to a base, as `Path::join` does it on Unix
/// (`PathBuf::push`): an absolute `path` replaces the base, and any other
/// is appended with a separator where one is needed.
pub(crate) fn path_join(base: &str, path: &str) -> (r: String)
    ensures
        r@ == joined_path(base@, path@),
{
    if path_is_absolute(path) {
        return path.to_owned();
    }
    let mut out = base.to_owned();
    let n = base.unicode_len();
    if n > 0 && base.get_char(n - 1) != '/' {
        out.append("/");
    }
    out.append(path);
    proof {
        reveal_strlit("/");
    }
    out
}

/// Calls `Path::starts_with`.
#[verifier::external_body]
pub(crate) fn path_starts_with(path: &str, base: &str) -> (r: bool)
    ensures
        r == path_has_prefix(path@, base@),
{
    std::path::Path::new(path).starts_with(base)
}

/// Calls `pathdiff::diff_paths`; the relative path comes back as text. As
/// its source shows, an absolute path from a relative base comes back
/// whole, and a relative path from an absolute base gives nothing.
#[verifier::external_body]
pub(crate) fn diff_paths(path: &str, base: &str) -> (r: Option<String>)
    ensures
        match r {
            Some(p) => relative_path(path@, base@) == Some(p@),
            None => relative_path(path@, base@) is None,
        },
        is_absolute_path(path@) && !is_absolute_path(base@) ==> r.is_some() && r.unwrap()@ == path@,
        !is_absolute_path(path@) && is_absolute_path(base@) ==> r.is_none(),
{
    pathdiff::diff_paths(path, base).map(|p| p.to_string_lossy().into_owned())
}

/// The path shown for `target`, relative to `base` where it can be.
pub open spec fn display_path(target: Seq<char>, base: Seq<char>) -> Seq<char> {
    match relative_path(target, base) {
        Some(p) => p,
        None => target,
    }
}

/// The path shown in lists for a workspace root, relative to the current
/// workspace root where it can be.
pub fn display_path_for_list(workspace_root: &str, target_root: &str) -> (r: String)
    ensures
        r@ == display_path(target_root@, workspace_root@),
{
    match diff_paths(target_root, workspace_root) {
        Some(p) => p,
        None => target_root.to_owned(),
    }
}

/// Whether `s` ends with `suffix`.
pub open spec fn ends_with(s: Seq<char>, suffix: Seq<char>) -> bool {
    s.len() >= suffix.len() && s.subrange(s.len() - suffix.len(), s.len() as int) == suffix
}

/// `s` with `suffix` removed from its end as often as it occurs there, as
/// `str::trim_end_matches` does.
pub open spec fn trim_suffix_repeated(s: Seq<char>, suffix: Seq<char>) -> Seq<char>
    decreases s.len(),
{
    if suffix.len() > 0 && ends_with(s, suffix) {
        trim_suffix_repeated(s.subrange(0, s.len() - suffix.len()), suffix)
    } else {
        s
    }
}

/// The repository name for a workspace directory named `basename`: the
/// basename without the `.<workspace>` suffix it carries, if any.
pub open spec fn repo_name_of(basename: Seq<char>, workspace: Seq<char>) -> Option<Seq<char>> {
    let suffix = "."@ + workspace;
    if ends_with(basename, suffix) {
        let name = trim_suffix_repeated(basename, suffix);
        if name.len() == 0 {
            None
        } else {
            Some(name)
        }
    } else {
        Some(basename)
    }
}

fn ends_with_chars(s: &Vec<char>, suffix: &Vec<char>, end: usize) -> (r: bool)
    requires
        end <= s.len(),
    ensures
        r == ends_with(s@.take(end as int), suffix@),
{
    if suffix.len() > end {
        return false;
    }
    let start = end - suffix.len();
    let mut j: usize = 0;
    while j < suffix.len()
        invariant
            start + suffix.len() == end <= s.len(),
            j <= suffix.len(),
            forall|k: int| 0 <= k < j ==> s@[start + k] == suffix@[k],
        decreases suffix.len() - j,
    {
        if s[start + j] != suffix[j] {
            assert(s@.take(end as int).subrange(start as int, end as int)[j as int] != suffix@[j as int]);
            return false;
        }
        j += 1;
    }
    assert(s@.take(end as int).subrange(start as int, end as int) =~= suffix@);
    true
}

/// `s` without the suffix, removed as often as it ends `s`.
pub fn trim_end_matches(s: &str, suffix: &str) -> (r: String)
    ensures
        r@ == trim_suffix_repeated(s@, suffix@),
{
    let v = chars_of(s);
    let p = chars_of(suffix);
    let mut end = v.len();
    assert(v@.take(end as int) =~= v@);
    if p.len() == 0 {
        return s.to_owned();
    }
    while ends_with_chars(&v, &p, end)
        invariant
            end <= v.len(),
            p@.len() > 0,
            trim_suffix_repeated(s@, suffix@) == trim_suffix_repeated(v@.take(end as int), p@),
            v@ == s@,
            p@ == suffix@,
        decreases end,
    {
        assert(v@.take(end as int).subrange(0, end - p.len()) =~= v@.take(end - p.len()));
        end = end - p.len();
    }
    let mut out = String::new();
    crate::text::append_range(&mut out, &v, 0, end);
    assert(v@.subrange(0, end as int) =~= v@.take(end as int));
    out
}

/// The repository name for a workspace root: its directory name without the
/// `.<current workspace>` suffix. Fails when the root has no name or the
/// name is only that suffix.
pub fn derive_repo_name(workspace_root: &str, current_workspace: &WorkspaceName) -> (r: Result<String>)
    ensures
        match file_name_of(workspace_root@) {
            None => r matches Err(Error::RepoName),
            Some(base) => match repo_name_of(base, current_workspace@) {
                None => r matches Err(Error::RepoName),
                Some(name) => r matches Ok(n) && n@ == name,
            },
        },
{
    let basename = match path_file_name(workspace_root) {
        Some(b) => b,
        None => return Err(Error::RepoName),
    };
    let mut suffix = String::new();
    suffix.append(".");
    suffix.append(current_workspace.as_str());
    let v = chars_of(basename.as_str());
    let p = chars_of(suffix.as_str());
    assert(v@.take(v.len() as int) =~= v@);
    if ends_with_chars(&v, &p, v.len()) {
        let name = trim_end_matches(basename.as_str(), suffix.as_str());
        if name.as_str().unicode_len() == 0 {
            return Err(Error::RepoName);
        }
        Ok(name)
    } else {
        Ok(basename)
    }
}

/// The repository name for `doctor`: from the workspace root when the
/// current workspace is known, else the name of the directory that holds
/// the repository storage's `.jj` directory.
pub open spec fn doctor_repo_name(repo_storage_path: Seq<char>, workspace_root: Seq<char>, current_workspace: Option<Seq<char>>) -> Option<Seq<char>> {
    match current_workspace {
        Some(w) => match file_name_of(workspace_root) {
            None => None,
            Some(base) => repo_name_of(base, w),
        },
        None => match parent_of(repo_storage_path) {
            None => None,
            Some(p1) => match parent_of(p1) {
                None => None,
                Some(p2) => file_name_of(p2),
            },
        },
    }
}

/// The repository name for `doctor`, or `RepoName` where there is none.
pub fn derive_repo_name_for_doctor(repo_storage_path: &str, workspace_root: &str, current_workspace: Option<&WorkspaceName>) -> (r: Result<String>)
    ensures
        match doctor_repo_name(
            repo_storage_path@,
            workspace_root@,
            match current_workspace {
                Some(w) => Some(w@),
                None => None,
            },
        ) {
            None => r matches Err(Error::RepoName),
            Some(name) => r matches Ok(n) && n@ == name,
        },
{
    match current_workspace {
        Some(w) => derive_repo_name(workspace_root, w),
        None => {
            let p1 = match path_parent(repo_storage_path) {
                Some(p) => p,
                None => return Err(Error::RepoName),
            };
            let p2 = match path_parent(p1.as_str()) {
                Some(p) => p,
                None => return Err(Error::RepoName),
            };
            match path_file_name(p2.as_str()) {
                Some(n) => Ok(n),
                None => Err(Error::RepoName),
            }
        },
    }
}

/// Whether a workspace without metadata deserves a mention: every workspace
/// but the default one.
pub fn should_report_missing_navi_metadata(workspace: &WorkspaceName) -> (r: bool)
    ensures
        r == (workspace@ != DEFAULT_WORKSPACE_NAME@),
{
    !str_equal(workspace.as_str(), DEFAULT_WORKSPACE_NAME)
}

/// Whether two optional names name the same workspace.
pub open spec fn is_current(current: Option<&WorkspaceName>, workspace: &WorkspaceName) -> bool {
    match current {
        Some(c) => c@ == workspace@,
        None => false,
    }
}

/// Where a workspace is planned to live: the current workspace stays at the
/// workspace root; any other goes where the template renders it, relative
/// to the workspace root unless the rendering is absolute.
pub open spec fn planned_root(
    workspace_root: Seq<char>,
    current_is_workspace: bool,
    repo_name: Seq<char>,
    template: Seq<char>,
    workspace: Seq<char>,
) -> Seq<char> {
    if current_is_workspace {
        workspace_root
    } else {
        let path = render_template(template, repo_name, workspace);
        if is_absolute_path(path) {
            path
        } else {
            joined_path(workspace_root, path)
        }
    }
}

/// Plan the root directory of a workspace.
pub fn planned_workspace_root(
    workspace_root: &str,
    current_workspace: Option<&WorkspaceName>,
    repo_name: &str,
    template: &WorkspaceTemplate,
    workspace: &WorkspaceName,
) -> (r: String)
    ensures
        r@ == planned_root(workspace_root@, is_current(current_workspace, workspace), repo_name@, template@, workspace@),
{
    if let Some(c) = current_workspace {
        if c.same_as(workspace) {
            return workspace_root.to_owned();
        }
    }
    let path = template.render(repo_name, workspace);
    if path_is_absolute(path.as_str()) {
        path
    } else {
        path_join(workspace_root, path.as_str())
    }
}

/// A workspace path with how far it can be trusted and where it came from.
#[derive(Debug, PartialEq, Eq)]
pub struct ResolvedWorkspacePath {
    /// The path.
    pub path: String,
    /// How far it can be trusted.
    pub state: WorkspacePathState,
    /// Where it came from.
    pub source: WorkspacePathSource,
}

impl ResolvedWorkspacePath {
    /// Whether `switch` may go there: the path is confirmed or inferred.
    pub open spec fn spec_is_switchable(self) -> bool {
        self.state is Confirmed || self.state is Inferred
    }

    /// Whether `switch` may go to this path.
    pub fn is_switchable(&self) -> (r: bool)
        ensures
            r == self.spec_is_switchable(),
    {
        match self.state {
            WorkspacePathState::Confirmed | WorkspacePathState::Inferred => true,
            _ => false,
        }
    }
}

impl Clone for ResolvedWorkspacePath {
    fn clone(&self) -> (r: Self)
        ensures
            r == *self,
    {
        ResolvedWorkspacePath { path: self.path.clone(), state: self.state, source: self.source }
    }
}

/// What checking a candidate directory found.
#[derive(Debug, Clone, Copy, PartialEq, Eq, Structural)]
pub enum CandidateState {
    /// It is the workspace's directory.
    Valid,
    /// It does not exist.
    Missing,
    /// It exists but is not, or no longer, the workspace's directory.
    Stale,
}

/// The state of a candidate directory from what was found on disk, in the
/// order the checks are made: it must be a directory, hold `.jj`, share the
/// repository storage, and be the named workspace's working copy.
pub open spec fn candidate_state(
    is_dir: bool,
    has_jj_dir: bool,
    same_storage: bool,
    is_named_workspace: bool,
) -> CandidateState {
    if !is_dir {
        CandidateState::Missing
    } else if !has_jj_dir {
        CandidateState::Stale
    } else if !same_storage {
        CandidateState::Stale
    } else if !is_named_workspace {
        CandidateState::Stale
    } else {
        CandidateState::Valid
    }
}

/// Classify a candidate directory. `candidate_storage` is its repository
/// storage, when it could be resolved, and `candidate_workspace` the name
/// of the workspace it holds, when `jj` reported one; later facts only
/// count when the earlier checks passed.
pub fn classify_candidate(
    is_dir: bool,
    has_jj_dir: bool,
    candidate_storage: Option<&str>,
    repo_storage_path: &str,
    candidate_workspace: Option<&WorkspaceName>,
    workspace: &WorkspaceName,
) -> (r: CandidateState)
    ensures
        r == candidate_state(
            is_dir,
            has_jj_dir,
            match candidate_storage {
                Some(s) => s@ == repo_storage_path@,
                None => false,
            },
            is_current(candidate_workspace, workspace),
        ),
        (r == CandidateState::Missing) == !is_dir,
        is_dir && !has_jj_dir ==> r == CandidateState::Stale,
        (r == CandidateState::Valid) == (is_dir && has_jj_dir && (candidate_storage matches Some(s) && s@
            == repo_storage_path@) && is_current(candidate_workspace, workspace)),
{
    if !is_dir {
        return CandidateState::Missing;
    }
    if !has_jj_dir {
        return CandidateState::Stale;
    }
    let same = match candidate_storage {
        Some(s) => str_equal(s, repo_storage_path),
        None => false,
    };
    if !same {
        return CandidateState::Stale;
    }
    match candidate_workspace {
        Some(c) => if c.same_as(workspace) {
            CandidateState::Valid
        } else {
            CandidateState::Stale
        },
        None => CandidateState::Stale,
    }
}

/// What a candidate's checks mean: it is missing exactly when it is not a
/// directory, so a directory that exists is never missing; a directory
/// without `.jj` is stale; and it is valid exactly when every check passes.
pub proof fn lemma_candidate_state_meaning(is_dir: bool, has_jj_dir: bool, same_storage: bool, is_named_workspace: bool)
    ensures
        (candidate_state(is_dir, has_jj_dir, same_storage, is_named_workspace) == CandidateState::Missing) == !is_dir,
        is_dir && !has_jj_dir ==> candidate_state(is_dir, has_jj_dir, same_storage, is_named_workspace)
            == CandidateState::Stale,
        (candidate_state(is_dir, has_jj_dir, same_storage, is_named_workspace) == CandidateState::Valid) == (is_dir
            && has_jj_dir && same_storage && is_named_workspace),
{
}

/// The trust state of a path from a source, given what checking it found.
pub open spec fn path_state_of(candidate: CandidateState, source: WorkspacePathSource) -> WorkspacePathState {
    match candidate {
        CandidateState::Valid => if source.spec_is_inferred() {
            WorkspacePathState::Inferred
        } else {
            WorkspacePathState::Confirmed
        },
        CandidateState::Missing => WorkspacePathState::Missing,
        CandidateState::Stale => WorkspacePathState::Stale,
    }
}

/// A candidate path with its trust state.
pub fn resolve_candidate_path(path: String, source: WorkspacePathSource, candidate: CandidateState) -> (r: ResolvedWorkspacePath)
    ensures
        r.path == path,
        r.source == source,
        r.state == path_state_of(candidate, source),
{
    let state = match candidate {
        CandidateState::Valid => if source.is_inferred() {
            WorkspacePathState::Inferred
        } else {
            WorkspacePathState::Confirmed
        },
        CandidateState::Missing => WorkspacePathState::Missing,
        CandidateState::Stale => WorkspacePathState::Stale,
    };
    ResolvedWorkspacePath { path, state, source }
}

/// The path of the current workspace: its root, confirmed.
pub fn current_workspace_path(workspace_root: &str) -> (r: ResolvedWorkspacePath)
    ensures
        r.path@ == workspace_root@,
        r.state == WorkspacePathState::Confirmed,
        r.source == WorkspacePathSource::CurrentWorkspace,
{
    ResolvedWorkspacePath {
        path: workspace_root.to_owned(),
        state: WorkspacePathState::Confirmed,
        source: WorkspacePathSource::CurrentWorkspace,
    }
}

/// The path of the current workspace, where `workspace` is the current
/// one: it needs no other source.
pub fn current_workspace_resolution(
    workspace_root: &str,
    current_workspace: Option<&WorkspaceName>,
    workspace: &WorkspaceName,
) -> (r: Option<ResolvedWorkspacePath>)
    ensures
        is_current(current_workspace, workspace) ==> (r matches Some(p) && p.path@ == workspace_root@ && p.state
            == WorkspacePathState::Confirmed && p.source == WorkspacePathSource::CurrentWorkspace),
        !is_current(current_workspace, workspace) ==> r is None,
{
    match current_workspace {
        Some(c) => if c.same_as(workspace) {
            Some(current_workspace_path(workspace_root))
        } else {
            None
        },
        None => None,
    }
}

/// The first candidate that `switch` may use, by its index.
pub open spec fn first_switchable(tried: Seq<ResolvedWorkspacePath>) -> Option<int>
    decreases tried.len(),
{
    if tried.len() == 0 {
        None
    } else {
        match first_switchable(tried.drop_last()) {
            Some(i) => Some(i),
            None => if tried.last().spec_is_switchable() {
                Some(tried.len() - 1)
            } else {
                None
            },
        }
    }
}

/// The path chosen among candidates tried from the most to the least
/// trusted source, and the template's path: the first switchable
/// candidate; else the template's path, where it may be used and is
/// switchable; else the first candidate, kept as the fallback; else the
/// template's path.
pub open spec fn resolved_path(
    tried: Seq<ResolvedWorkspacePath>,
    template: ResolvedWorkspacePath,
    allow_switchable: bool,
) -> ResolvedWorkspacePath {
    match first_switchable(tried) {
        Some(i) => tried[i],
        None => if allow_switchable && template.spec_is_switchable() {
            template
        } else if tried.len() > 0 {
            tried[0]
        } else {
            template
        },
    }
}

/// The choice among candidate paths, offered from the most to the least
/// trusted source.
pub struct PathResolution {
    /// The first candidate offered, kept in case none can be used.
    pub fallback: Option<ResolvedWorkspacePath>,
    /// The candidates offered so far.
    pub tried: Ghost<Seq<ResolvedWorkspacePath>>,
}

impl PathResolution {
    /// Nothing offered can be used yet, and the fallback is the first
    /// candidate offered.
    pub open spec fn is_open(self) -> bool {
        &&& first_switchable(self.tried@) is None
        &&& self.fallback == if self.tried@.len() > 0 {
            Some(self.tried@[0])
        } else {
            None
        }
    }

    /// Start with nothing offered.
    pub fn new() -> (r: PathResolution)
        ensures
            r.is_open(),
            r.tried@ == Seq::<ResolvedWorkspacePath>::empty(),
    {
        PathResolution { fallback: None, tried: Ghost(Seq::empty()) }
    }

    /// Offer the next candidate. A switchable candidate settles the
    /// resolution and comes back; any other is kept as the fallback if it
    /// is the first.
    pub fn offer(&mut self, candidate: ResolvedWorkspacePath) -> (r: Option<ResolvedWorkspacePath>)
        requires
            old(self).is_open(),
        ensures
            final(self).tried@ == old(self).tried@.push(candidate),
            candidate.spec_is_switchable() ==> r == Some(candidate),
            !candidate.spec_is_switchable() ==> r is None && final(self).is_open(),
            forall|template: ResolvedWorkspacePath, allow_switchable: bool|
                r == Some(resolved_path(final(self).tried@, template, allow_switchable)) || r is None,
    {
        let ghost before = self.tried@;
        self.tried = Ghost(self.tried@.push(candidate));
        assert(self.tried@.drop_last() =~= before);
        if candidate.is_switchable() {
            return Some(candidate);
        }
        if self.fallback.is_none() {
            self.fallback = Some(candidate);
        }
        None
    }

    /// Settle with the template's path once no offered candidate could be
    /// used.
    pub fn finish(self, template: ResolvedWorkspacePath, allow_switchable: bool) -> (r: ResolvedWorkspacePath)
        requires
            self.is_open(),
        ensures
            r == resolved_path(self.tried@, template, allow_switchable),
    {
        if allow_switchable && template.is_switchable() {
            return template;
        }
        match self.fallback {
            Some(f) => f,
            None => template,
        }
    }
}

/// A path to try for a workspace, and where it came from.
pub struct PathCandidate {
    /// The path.
    pub path: String,
    /// Where it came from.
    pub source: WorkspacePathSource,
}

/// A candidate's path and source.
pub open spec fn candidate_views(s: Seq<PathCandidate>) -> Seq<(Seq<char>, WorkspacePathSource)> {
    s.map_values(|c: PathCandidate| (c.path@, c.source))
}

/// A candidate from a source, where the source gives a path.
pub open spec fn candidate_from(path: Option<Seq<char>>, source: WorkspacePathSource) -> Seq<(Seq<char>, WorkspacePathSource)> {
    match path {
        Some(p) => seq![(p, source)],
        None => Seq::empty(),
    }
}

/// The primary workspace root, for the default workspace only.
pub open spec fn primary_root_of(repo_storage_path: Seq<char>, workspace: Seq<char>) -> Option<Seq<char>> {
    if workspace == DEFAULT_WORKSPACE_NAME@ {
        match parent_of(repo_storage_path) {
            Some(p1) => parent_of(p1),
            None => None,
        }
    } else {
        None
    }
}

/// The path that the tool's records give a workspace, when they can be
/// trusted.
pub open spec fn recorded_path_of(metadata: Option<&WorkspaceMetadataStore>, workspace: Seq<char>) -> Option<Seq<char>> {
    match metadata {
        Some(m) => match first_record(record_views(m.records@), workspace) {
            Some(i) => record_views(m.records@)[i].1,
            None => None,
        },
        None => None,
    }
}

/// The sources tried for the path of a workspace that is not the current
/// one, before the template: the path `jj` records for it, the primary
/// workspace root (for the default workspace), then the path in the
/// tool's records.
pub open spec fn path_candidates_spec(
    jj_path: Option<Seq<char>>,
    repo_storage_path: Seq<char>,
    metadata: Option<&WorkspaceMetadataStore>,
    workspace: Seq<char>,
) -> Seq<(Seq<char>, WorkspacePathSource)> {
    candidate_from(jj_path, WorkspacePathSource::JjRecorded) + candidate_from(
        primary_root_of(repo_storage_path, workspace),
        WorkspacePathSource::RepoPrimary,
    ) + candidate_from(recorded_path_of(metadata, workspace), WorkspacePathSource::NaviMetadata)
}

/// The candidate paths of a workspace, in the order they are tried before
/// the template's path. `jj_path` is the root that `jj` reports for it.
pub fn workspace_path_candidates(
    jj_path: Option<String>,
    repo_storage_path: &str,
    metadata: Option<&WorkspaceMetadataStore>,
    workspace: &WorkspaceName,
) -> (r: Vec<PathCandidate>)
    ensures
        candidate_views(r@) == path_candidates_spec(opt_view(jj_path), repo_storage_path@, metadata, workspace@),
{
    let mut out: Vec<PathCandidate> = Vec::new();
    if let Some(p) = jj_path {
        out.push(PathCandidate { path: p, source: WorkspacePathSource::JjRecorded });
    }
    if let Some(p) = repo_primary_workspace_root(repo_storage_path, workspace) {
        out.push(PathCandidate { path: p, source: WorkspacePathSource::RepoPrimary });
    }
    if let Some(m) = metadata {
        if let Some(p) = m.workspace_path(workspace) {
            out.push(PathCandidate { path: p, source: WorkspacePathSource::NaviMetadata });
        }
    }
    assert(candidate_views(out@) =~= path_candidates_spec(opt_view(jj_path), repo_storage_path@, metadata, workspace@));
    out
}

/// The root of the repository's primary workspace: two levels above the
/// repository storage (`<root>/.jj/repo`).
pub fn primary_workspace_root(repo_storage_path: &str) -> (r: Option<String>)
    ensures
        r matches Some(p) ==> parent_of(repo_storage_path@) matches Some(p1) && parent_of(p1) == Some(p@),
        r is None ==> match parent_of(repo_storage_path@) {
            Some(p1) => parent_of(p1) is None,
            None => true,
        },
{
    match path_parent(repo_storage_path) {
        Some(p1) => path_parent(p1.as_str()),
        None => None,
    }
}

/// The primary workspace root as a candidate for the default workspace.
pub fn repo_primary_workspace_root(repo_storage_path: &str, workspace: &WorkspaceName) -> (r: Option<String>)
    ensures
        workspace@ != DEFAULT_WORKSPACE_NAME@ ==> r is None,
        workspace@ == DEFAULT_WORKSPACE_NAME@ ==> (r matches Some(p) ==> parent_of(repo_storage_path@) matches Some(
            p1,
        ) && parent_of(p1) == Some(p@)),
        workspace@ == DEFAULT_WORKSPACE_NAME@ ==> (r is None ==> match parent_of(repo_storage_path@) {
            Some(p1) => parent_of(p1) is None,
            None => true,
        }),
{
    if !str_equal(workspace.as_str(), DEFAULT_WORKSPACE_NAME) {
        return None;
    }
    primary_workspace_root(repo_storage_path)
}

/// The list statuses of a workspace: inferred when its path came from a
/// fallback, missing or stale as its path is, jj-only when it has no
/// metadata record and is not the default workspace, and healthy when none
/// of these hold.
pub open spec fn list_statuses(
    workspace: Seq<char>,
    source: WorkspacePathSource,
    state: WorkspacePathState,
    metadata_status: WorkspaceMetadataStatus,
) -> Seq<WorkspaceListStatus> {
    let s = (if source.spec_is_inferred() {
        seq![WorkspaceListStatus::Inferred]
    } else {
        Seq::empty()
    }) + (match state {
        WorkspacePathState::Missing => seq![WorkspaceListStatus::Missing],
        WorkspacePathState::Stale => seq![WorkspaceListStatus::Stale],
        _ => Seq::empty(),
    }) + (if metadata_status is MissingRecord && workspace != DEFAULT_WORKSPACE_NAME@ {
        seq![WorkspaceListStatus::JjOnly]
    } else {
        Seq::empty()
    });
    if s.len() == 0 {
        seq![WorkspaceListStatus::Healthy]
    } else {
        s
    }
}

/// What the list statuses say: a workspace other than `default` with no
/// record of the tool is jj-only; a missing or stale path shows as such;
/// an inferred source shows as inferred; and a workspace is healthy, with
/// no other status, exactly when none of these holds.
pub proof fn lemma_list_statuses_meaning(
    workspace: Seq<char>,
    source: WorkspacePathSource,
    state: WorkspacePathState,
    metadata_status: WorkspaceMetadataStatus,
)
    ensures
        workspace != "default"@ && metadata_status is MissingRecord ==> list_statuses(
            workspace,
            source,
            state,
            metadata_status,
        ).contains(WorkspaceListStatus::JjOnly),
        state is Missing ==> list_statuses(workspace, source, state, metadata_status).contains(
            WorkspaceListStatus::Missing,
        ),
        state is Stale ==> list_statuses(workspace, source, state, metadata_status).contains(
            WorkspaceListStatus::Stale,
        ),
        source.spec_is_inferred() ==> list_statuses(workspace, source, state, metadata_status).contains(
            WorkspaceListStatus::Inferred,
        ),
        list_statuses(workspace, source, state, metadata_status).contains(WorkspaceListStatus::Healthy) == (
        list_statuses(workspace, source, state, metadata_status) == seq![WorkspaceListStatus::Healthy]),
        list_statuses(workspace, source, state, metadata_status).contains(WorkspaceListStatus::Healthy) == (
        !source.spec_is_inferred() && !(state is Missing) && !(state is Stale) && !(workspace != "default"@
            && metadata_status is MissingRecord)),
{
    reveal_strlit("default");
    let r = list_statuses(workspace, source, state, metadata_status);
    let a: Seq<WorkspaceListStatus> = if source.spec_is_inferred() {
        seq![WorkspaceListStatus::Inferred]
    } else {
        Seq::empty()
    };
    let b: Seq<WorkspaceListStatus> = match state {
        WorkspacePathState::Missing => seq![WorkspaceListStatus::Missing],
        WorkspacePathState::Stale => seq![WorkspaceListStatus::Stale],
        _ => Seq::empty(),
    };
    let c: Seq<WorkspaceListStatus> = if metadata_status is MissingRecord && workspace != DEFAULT_WORKSPACE_NAME@ {
        seq![WorkspaceListStatus::JjOnly]
    } else {
        Seq::empty()
    };
    let t = a + b + c;
    assert(DEFAULT_WORKSPACE_NAME@ == "default"@);
    if t.len() == 0 {
        assert(r == seq![WorkspaceListStatus::Healthy]);
        assert(r[0] == WorkspaceListStatus::Healthy);
        assert(r.contains(WorkspaceListStatus::Healthy));
    } else {
        assert(r == t);
        assert forall|k: int| 0 <= k < t.len() implies t[k] != WorkspaceListStatus::Healthy by {
            if k < a.len() {
                assert(t[k] == a[k]);
            } else if k < a.len() + b.len() {
                assert(t[k] == b[k - a.len()]);
            } else {
                assert(t[k] == c[k - a.len() - b.len()]);
            }
        }
        assert(!r.contains(WorkspaceListStatus::Healthy));
        if source.spec_is_inferred() {
            assert(t[0] == WorkspaceListStatus::Inferred);
        }
        if b.len() > 0 {
            assert(t[a.len() as int] == b[0]);
        }
        if c.len() > 0 {
            assert(t[(a.len() + b.len()) as int] == c[0]);
        }
    }
}

/// The list statuses of a workspace.
pub fn workspace_list_statuses(
    workspace: &WorkspaceName,
    resolved: &ResolvedWorkspacePath,
    metadata_status: WorkspaceMetadataStatus,
) -> (r: Vec<WorkspaceListStatus>)
    ensures
        r@ == list_statuses(workspace@, resolved.source, resolved.state, metadata_status),
        workspace@ != "default"@ && metadata_status is MissingRecord ==> r@.contains(WorkspaceListStatus::JjOnly),
        resolved.state is Missing ==> r@.contains(WorkspaceListStatus::Missing),
        resolved.state is Stale ==> r@.contains(WorkspaceListStatus::Stale),
        r@.contains(WorkspaceListStatus::Healthy) == (r@ == seq![WorkspaceListStatus::Healthy]),
        r@.contains(WorkspaceListStatus::Healthy) == (!resolved.source.spec_is_inferred() && !(resolved.state is Missing)
            && !(resolved.state is Stale) && !(workspace@ != "default"@ && metadata_status is MissingRecord)),
{
    proof {
        lemma_list_statuses_meaning(workspace@, resolved.source, resolved.state, metadata_status);
    }
    let mut statuses: Vec<WorkspaceListStatus> = Vec::new();
    if resolved.source.is_inferred() {
        statuses.push(WorkspaceListStatus::Inferred);
    }
    match resolved.state {
        WorkspacePathState::Missing => statuses.push(WorkspaceListStatus::Missing),
        WorkspacePathState::Stale => statuses.push(WorkspaceListStatus::Stale),
        _ => {},
    }
    let missing_record = match metadata_status {
        WorkspaceMetadataStatus::MissingRecord => true,
        _ => false,
    };
    if missing_record && should_report_missing_navi_metadata(workspace) {
        statuses.push(WorkspaceListStatus::JjOnly);
    }
    if statuses.len() == 0 {
        statuses.push(WorkspaceListStatus::Healthy);
    }
    assert(statuses@ =~= list_statuses(workspace@, resolved.source, resolved.state, metadata_status));
    statuses
}

} // verus!
