//! Core domain and presentation types.
//!
//! Paths are carried as their display text and creation times as Unix
//! timestamps in seconds.

use vstd::prelude::*;

use crate::error::{Error, Result};
use crate::text::{
    char_is_whitespace, is_whitespace, append_range, chars_equal, chars_equal_str, chars_of, contains_char, find_char_from,
    index_of_char, lemma_index_of_char, lemma_index_of_char_first, lemma_index_of_char_none,
    push_char, sub_chars,
};

verus! {

/// The naming rules for a workspace.
pub open spec fn is_valid_workspace_name(s: Seq<char>) -> bool {
    &&& s.len() > 0
    &&& s != "."@
    &&& s != ".."@
    &&& !s.contains('/')
    &&& !s.contains('\\')
    &&& forall|i: int| 0 <= i < s.len() ==> !char_is_whitespace(#[trigger] s[i])
}

/// Validated workspace name.
#[derive(Debug, PartialEq, Eq, PartialOrd, Ord)]
pub struct WorkspaceName(String);

impl View for WorkspaceName {
    type V = Seq<char>;

    closed spec fn view(&self) -> Seq<char> {
        self.0@
    }
}

impl WorkspaceName {
    #[verifier::type_invariant]
    spec fn wf(self) -> bool {
        is_valid_workspace_name(self.0@)
    }

    /// Create a validated workspace name.
    ///
    /// Fails exactly when the name is empty, `.` or `..`, uses a path
    /// separator, or contains whitespace.
    pub fn new(value: &str) -> (r: Result<Self>)
        ensures
            r is Ok <==> is_valid_workspace_name(value@),
            r matches Ok(name) ==> name@ == value@,
            r matches Err(e) ==> (e matches Error::InvalidWorkspaceName(v) && v@ == value@),
    {
        let v = chars_of(value);
        let mut has_space = false;
        let mut i: usize = 0;
        while i < v.len()
            invariant
                i <= v.len(),
                has_space == exists|j: int| 0 <= j < i && char_is_whitespace(#[trigger] v@[j]),
            decreases v.len() - i,
        {
            if is_whitespace(v[i]) {
                has_space = true;
            }
            i += 1;
        }
        if v.len() == 0 || chars_equal_str(&v, ".") || chars_equal_str(&v, "..") || contains_char(
            &v,
            '/',
        ) || contains_char(&v, '\\') || has_space {
            return Err(Error::InvalidWorkspaceName(value.to_owned()));
        }
        Ok(WorkspaceName(value.to_owned()))
    }

    /// Borrow the validated workspace name as a string slice.
    pub fn as_str(&self) -> (r: &str)
        ensures
            r@ == self@,
            is_valid_workspace_name(r@),
    {
        proof {
            use_type_invariant(self);
        }
        self.0.as_str()
    }

    /// Whether two names are the same.
    pub fn same_as(&self, other: &WorkspaceName) -> (r: bool)
        ensures
            r == (self@ == other@),
    {
        self.0 == other.0
    }
}

impl Clone for WorkspaceName {
    fn clone(&self) -> (r: Self)
        ensures
            r@ == self@,
    {
        proof {
            use_type_invariant(self);
        }
        WorkspaceName(self.0.clone())
    }
}

/// Well-formedness of a workspace path template: every `{` is closed by a
/// `}` and encloses `repo` or `workspace`, and no `}` stands alone.
pub open spec fn is_valid_template(s: Seq<char>) -> bool
    decreases s.len(),
{
    if s.len() == 0 {
        true
    } else if s[0] == '{' {
        match index_of_char(s.drop_first(), '}') {
            Some(k) => {
                proof {
                    lemma_index_of_char(s.drop_first(), '}');
                }
                let placeholder = s.drop_first().take(k);
                &&& (placeholder == "repo"@ || placeholder == "workspace"@)
                &&& is_valid_template(s.drop_first().skip(k + 1))
            },
            None => false,
        }
    } else if s[0] == '}' {
        false
    } else {
        is_valid_template(s.drop_first())
    }
}

/// What a placeholder stands for when a template is rendered.
pub open spec fn placeholder_value(
    placeholder: Seq<char>,
    repo: Seq<char>,
    workspace: Seq<char>,
) -> Seq<char> {
    if placeholder == "repo"@ {
        repo
    } else if placeholder == "workspace"@ {
        workspace
    } else {
        seq!['{'] + placeholder + seq!['}']
    }
}

/// A template with `{repo}` and `{workspace}` substituted; any other
/// braced text is kept, an unclosed brace runs to the end of the template.
pub open spec fn render_template(t: Seq<char>, repo: Seq<char>, workspace: Seq<char>) -> Seq<char>
    decreases t.len(),
{
    if t.len() == 0 {
        Seq::empty()
    } else if t[0] == '{' {
        match index_of_char(t.drop_first(), '}') {
            Some(k) => {
                proof {
                    lemma_index_of_char(t.drop_first(), '}');
                }
                placeholder_value(t.drop_first().take(k), repo, workspace) + render_template(
                    t.drop_first().skip(k + 1),
                    repo,
                    workspace,
                )
            },
            None => placeholder_value(t.drop_first(), repo, workspace),
        }
    } else {
        seq![t[0]] + render_template(t.drop_first(), repo, workspace)
    }
}


/// The characters after `v[i]`, where a `{` is looked for.
proof fn lemma_brace_split(v: Seq<char>, i: int, k: Option<int>)
    requires
        0 <= i < v.len(),
        match k {
            Some(k) => i + 1 <= k < v.len() && v[k] == '}' && forall|j: int|
                i + 1 <= j < k ==> v[j] != '}',
            None => forall|j: int| i + 1 <= j < v.len() ==> v[j] != '}',
        },
    ensures
        v.subrange(i, v.len() as int)[0] == v[i],
        v.subrange(i, v.len() as int).drop_first() =~= v.subrange(i + 1, v.len() as int),
        match k {
            Some(k) => {
                &&& index_of_char(v.subrange(i + 1, v.len() as int), '}') == Some(k - i - 1)
                &&& v.subrange(i + 1, v.len() as int).take(k - i - 1) =~= v.subrange(i + 1, k)
                &&& v.subrange(i + 1, v.len() as int).skip(k - i) =~= v.subrange(k + 1, v.len() as int)
            },
            None => index_of_char(v.subrange(i + 1, v.len() as int), '}') == None::<int>,
        },
{
    let rest = v.subrange(i + 1, v.len() as int);
    match k {
        Some(k) => {
            assert forall|j: int| 0 <= j < k - i - 1 implies rest[j] != '}' by {
                assert(rest[j] == v[j + i + 1]);
            }
            lemma_index_of_char_first(rest, '}', k - i - 1);
        },
        None => {
            assert forall|j: int| 0 <= j < rest.len() implies rest[j] != '}' by {
                assert(rest[j] == v[j + i + 1]);
            }
            lemma_index_of_char_none(rest, '}');
        },
    }
}

/// Check a template against `is_valid_template`.
fn validate_workspace_template(value: &str) -> (r: Result<()>)
    ensures
        r is Ok <==> is_valid_template(value@),
        r matches Err(e) ==> (e matches Error::InvalidWorkspaceTemplate(v) && v@ == value@),
{
    let v = chars_of(value);
    let n = v.len();
    let mut i: usize = 0;
    assert(v@.subrange(0, n as int) =~= v@);
    while i < n
        invariant
            i <= n,
            n == v.len(),
            v@ == value@,
            is_valid_template(v@) == is_valid_template(v@.subrange(i as int, n as int)),
        decreases n - i,
    {
        if v[i] == '{' {
            match find_char_from(&v, '}', i + 1) {
                None => {
                    proof {
                        lemma_brace_split(v@, i as int, None);
                    }
                    return Err(Error::InvalidWorkspaceTemplate(value.to_owned()));
                },
                Some(k) => {
                    proof {
                        lemma_brace_split(v@, i as int, Some(k as int));
                    }
                    let placeholder = sub_chars(&v, i + 1, k);
                    if !(chars_equal_str(&placeholder, "repo") || chars_equal_str(
                        &placeholder,
                        "workspace",
                    )) {
                        return Err(Error::InvalidWorkspaceTemplate(value.to_owned()));
                    }
                    i = k + 1;
                },
            }
        } else if v[i] == '}' {
            return Err(Error::InvalidWorkspaceTemplate(value.to_owned()));
        } else {
            assert(v@.subrange(i as int, n as int).drop_first() =~= v@.subrange(i + 1, n as int));
            i += 1;
        }
    }
    assert(v@.subrange(n as int, n as int) =~= Seq::<char>::empty());
    Ok(())
}

/// Validated workspace path template.
#[derive(Debug, PartialEq, Eq)]
pub struct WorkspaceTemplate(String);

impl View for WorkspaceTemplate {
    type V = Seq<char>;

    closed spec fn view(&self) -> Seq<char> {
        self.0@
    }
}

/// Appends what a placeholder stands for.
fn push_placeholder(out: &mut String, placeholder: &Vec<char>, repo: &str, workspace: &str)
    ensures
        final(out)@ == old(out)@ + placeholder_value(placeholder@, repo@, workspace@),
{
    if chars_equal_str(placeholder, "repo") {
        out.append(repo);
    } else if chars_equal_str(placeholder, "workspace") {
        out.append(workspace);
    } else {
        push_char(out, '{');
        crate::text::append_chars(out, placeholder);
        push_char(out, '}');
    }
}

/// Render a template's characters.
pub fn render_template_str(template: &str, repo: &str, workspace: &str) -> (r: String)
    ensures
        r@ == render_template(template@, repo@, workspace@),
{
    let v = chars_of(template);
    let n = v.len();
    let mut out = String::new();
    let mut i: usize = 0;
    assert(v@.subrange(0, n as int) =~= v@);
    while i < n
        invariant
            i <= n,
            n == v.len(),
            v@ == template@,
            out@ + render_template(v@.subrange(i as int, n as int), repo@, workspace@)
                == render_template(template@, repo@, workspace@),
        decreases n - i,
    {
        let ghost before = out@;
        if v[i] == '{' {
            match find_char_from(&v, '}', i + 1) {
                None => {
                    proof {
                        lemma_brace_split(v@, i as int, None);
                    }
                    let placeholder = sub_chars(&v, i + 1, n);
                    push_placeholder(&mut out, &placeholder, repo, workspace);
                    i = n;
                    assert(v@.subrange(n as int, n as int) =~= Seq::<char>::empty());
                },
                Some(k) => {
                    proof {
                        lemma_brace_split(v@, i as int, Some(k as int));
                    }
                    let placeholder = sub_chars(&v, i + 1, k);
                    push_placeholder(&mut out, &placeholder, repo, workspace);
                    assert(out@ + render_template(v@.subrange(k + 1, n as int), repo@, workspace@)
                        =~= before + render_template(v@.subrange(i as int, n as int), repo@, workspace@));
                    i = k + 1;
                },
            }
        } else {
            push_char(&mut out, v[i]);
            assert(v@.subrange(i as int, n as int).drop_first() =~= v@.subrange(i + 1, n as int));
            assert(out@ + render_template(v@.subrange(i + 1, n as int), repo@, workspace@)
                =~= before + render_template(v@.subrange(i as int, n as int), repo@, workspace@));
            i += 1;
        }
    }
    assert(v@.subrange(n as int, n as int) =~= Seq::<char>::empty());
    assert(out@ =~= out@ + Seq::<char>::empty());
    out
}

impl WorkspaceTemplate {
    #[verifier::type_invariant]
    spec fn wf(self) -> bool {
        is_valid_template(self.0@)
    }

    /// Create a validated workspace template.
    ///
    /// Fails exactly when the template is not `is_valid_template`.
    pub fn new(value: &str) -> (r: Result<Self>)
        ensures
            r is Ok <==> is_valid_template(value@),
            r matches Ok(t) ==> t@ == value@,
            r matches Err(e) ==> (e matches Error::InvalidWorkspaceTemplate(v) && v@ == value@),
    {
        validate_workspace_template(value)?;
        Ok(WorkspaceTemplate(value.to_owned()))
    }

    /// The default template, `../{repo}.{workspace}`.
    pub fn default_template() -> (r: Self)
        ensures
            r@ == "../{repo}.{workspace}"@,
    {
        let value = "../{repo}.{workspace}";
        proof {
            reveal_strlit("../{repo}.{workspace}");
            reveal_strlit("repo");
            reveal_strlit("workspace");
            let v = value@;
            let n = v.len() as int;
            assert(n == 21);
            assert(v.subrange(0, n) =~= v);
            assert(v.subrange(0, n).drop_first() =~= v.subrange(1, n));
            assert(v.subrange(1, n).drop_first() =~= v.subrange(2, n));
            assert(v.subrange(2, n).drop_first() =~= v.subrange(3, n));
            lemma_brace_split(v, 3, Some(8));
            assert(v.subrange(4, 8) =~= "repo"@);
            assert(v.subrange(9, n).drop_first() =~= v.subrange(10, n));
            lemma_brace_split(v, 10, Some(20));
            assert(v.subrange(11, 20) =~= "workspace"@);
            assert(v.subrange(21, n) =~= Seq::<char>::empty());
            assert(is_valid_template(v.subrange(21, n)));
            assert(is_valid_template(v.subrange(10, n)));
            assert(is_valid_template(v.subrange(9, n)));
            assert(is_valid_template(v.subrange(3, n)));
            assert(is_valid_template(v.subrange(2, n)));
            assert(is_valid_template(v.subrange(1, n)));
            assert(is_valid_template(v.subrange(0, n)));
            assert(is_valid_template(value@));
        }
        WorkspaceTemplate(value.to_owned())
    }

    /// Borrow the template as a string slice.
    pub fn as_str(&self) -> (r: &str)
        ensures
            r@ == self@,
            is_valid_template(r@),
    {
        proof {
            use_type_invariant(self);
        }
        self.0.as_str()
    }

    /// Render the template for a repo and workspace name.
    pub fn render(&self, repo: &str, workspace: &WorkspaceName) -> (r: String)
        ensures
            r@ == render_template(self@, repo@, workspace@),
    {
        render_template_str(self.0.as_str(), repo, workspace.as_str())
    }
}

impl Clone for WorkspaceTemplate {
    fn clone(&self) -> (r: Self)
        ensures
            r@ == self@,
    {
        proof {
            use_type_invariant(self);
        }
        WorkspaceTemplate(self.0.clone())
    }
}


impl Default for WorkspaceTemplate {
    fn default() -> (r: Self)
        ensures
            r@ == "../{repo}.{workspace}"@,
    {
        Self::default_template()
    }
}

/// Shell kinds supported by shell integration.
#[derive(Clone, Copy, Debug, PartialEq, Eq, Structural)]
pub enum ShellKind {
    /// Bash shell.
    Bash,
    /// Zsh shell.
    Zsh,
}

impl ShellKind {
    /// The shell name used in CLI output and shell code.
    pub open spec fn spec_name(self) -> Seq<char> {
        match self {
            ShellKind::Bash => "bash"@,
            ShellKind::Zsh => "zsh"@,
        }
    }

    /// The rc file, relative to the directory it lives in.
    pub open spec fn spec_rc_file_name(self) -> Seq<char> {
        match self {
            ShellKind::Bash => ".bashrc"@,
            ShellKind::Zsh => ".zshrc"@,
        }
    }

    /// The shell a name names.
    pub open spec fn spec_from_name(name: Seq<char>) -> Option<ShellKind> {
        if name == "bash"@ {
            Some(ShellKind::Bash)
        } else if name == "zsh"@ {
            Some(ShellKind::Zsh)
        } else {
            None
        }
    }

    /// Parse a supported shell kind.
    ///
    /// Accepts exactly `bash` and `zsh`; anything else is
    /// `UnsupportedShell` carrying the given name.
    pub fn new(value: &str) -> (r: Result<Self>)
        ensures
            ShellKind::spec_from_name(value@) matches Some(k) ==> (r matches Ok(x) && x == k),
            ShellKind::spec_from_name(value@) is None ==> r is Err,
            r matches Ok(k) ==> k.spec_name() == value@,
            r is Err ==> (value@ != "bash"@ && value@ != "zsh"@),
            r matches Err(e) ==> (e matches Error::UnsupportedShell(v) && v@ == value@),
    {
        let v = chars_of(value);
        if chars_equal_str(&v, "bash") {
            Ok(ShellKind::Bash)
        } else if chars_equal_str(&v, "zsh") {
            Ok(ShellKind::Zsh)
        } else {
            Err(Error::UnsupportedShell(value.to_owned()))
        }
    }

    /// The shell named by the value of `$SHELL`: the file name of its path,
    /// which must be a supported shell.
    pub fn detect(shell_var: Option<&str>) -> (r: Result<Self>)
        ensures
            match shell_var {
                None => r matches Err(Error::ShellDetection),
                Some(s) => match crate::repo::paths::file_name_of(s@) {
                    None => r matches Err(Error::ShellDetection),
                    Some(n) => match ShellKind::spec_from_name(n) {
                        Some(k) => r matches Ok(x) && x == k,
                        None => r matches Err(Error::UnsupportedShell(v)) && v@ == n,
                    },
                },
            },
    {
        let s = match shell_var {
            Some(s) => s,
            None => return Err(Error::ShellDetection),
        };
        match crate::repo::paths::path_file_name(s) {
            Some(n) => ShellKind::new(n.as_str()),
            None => Err(Error::ShellDetection),
        }
    }

    /// Return the shell name used in CLI output and shell code.
    pub fn as_str(self) -> (r: &'static str)
        ensures
            r@ == self.spec_name(),
    {
        match self {
            ShellKind::Bash => "bash",
            ShellKind::Zsh => "zsh",
        }
    }

    /// Return the shell rc filename for this shell.
    pub fn rc_file_name(self) -> (r: &'static str)
        ensures
            r@ == self.spec_rc_file_name(),
            self is Bash ==> r@ == ".bashrc"@,
            self is Zsh ==> r@ == ".zshrc"@,
    {
        match self {
            ShellKind::Bash => ".bashrc",
            ShellKind::Zsh => ".zshrc",
        }
    }
}

/// Repo-scoped configuration.
#[derive(Debug, PartialEq, Eq)]
pub struct RepoConfig {
    /// Template used when planning new workspace paths.
    pub workspace_template: WorkspaceTemplate,
}

impl Default for RepoConfig {
    fn default() -> (r: Self)
        ensures
            r.workspace_template@ == "../{repo}.{workspace}"@,
    {
        RepoConfig { workspace_template: WorkspaceTemplate::default_template() }
    }
}

/// Shared path source used by workspace health snapshots.
#[derive(Clone, Copy, Debug, PartialEq, Eq, Structural)]
pub enum WorkspacePathSource {
    /// Path comes from the currently opened workspace root.
    CurrentWorkspace,
    /// Path comes from `jj workspace root --name`.
    JjRecorded,
    /// Path comes from the repo-primary root fallback.
    RepoPrimary,
    /// Path comes from validated metadata.
    NaviMetadata,
    /// Path comes from the deterministic workspace template.
    Template,
}

impl WorkspacePathSource {
    /// Whether this source is a validated fallback rather than direct JJ truth.
    pub open spec fn spec_is_inferred(self) -> bool {
        self is NaviMetadata || self is Template
    }

    /// The machine-readable label.
    pub open spec fn spec_label(self) -> Seq<char> {
        match self {
            WorkspacePathSource::CurrentWorkspace => "current_workspace"@,
            WorkspacePathSource::JjRecorded => "jj_recorded"@,
            WorkspacePathSource::RepoPrimary => "repo_primary"@,
            WorkspacePathSource::NaviMetadata => "navi_metadata"@,
            WorkspacePathSource::Template => "template"@,
        }
    }

    /// Whether this source is a validated fallback rather than direct JJ truth.
    pub fn is_inferred(self) -> (r: bool)
        ensures
            r == self.spec_is_inferred(),
    {
        matches!(self, WorkspacePathSource::NaviMetadata | WorkspacePathSource::Template)
    }

    /// Whether `switch` should warn when navigating via this source.
    pub fn needs_switch_warning(self) -> (r: bool)
        ensures
            r == (self is Template),
    {
        matches!(self, WorkspacePathSource::Template)
    }

    /// Return the machine-readable label for this source.
    pub fn label(self) -> (r: &'static str)
        ensures
            r@ == self.spec_label(),
    {
        match self {
            WorkspacePathSource::CurrentWorkspace => "current_workspace",
            WorkspacePathSource::JjRecorded => "jj_recorded",
            WorkspacePathSource::RepoPrimary => "repo_primary",
            WorkspacePathSource::NaviMetadata => "navi_metadata",
            WorkspacePathSource::Template => "template",
        }
    }
}

/// Presence of repo-scoped metadata for a workspace.
#[derive(Clone, Copy, Debug, PartialEq, Eq, Structural)]
pub enum WorkspaceMetadataStatus {
    /// No metadata record exists for the workspace.
    MissingRecord,
    /// Metadata record exists, but it does not currently expose a path.
    PresentWithoutPath,
    /// Metadata record exists and contains a path.
    PresentWithPath,
}

impl WorkspaceMetadataStatus {
    /// The machine-readable label.
    pub open spec fn spec_label(self) -> Seq<char> {
        match self {
            WorkspaceMetadataStatus::MissingRecord => "missing_record"@,
            WorkspaceMetadataStatus::PresentWithoutPath => "present_without_path"@,
            WorkspaceMetadataStatus::PresentWithPath => "present_with_path"@,
        }
    }

    /// Return the machine-readable label for this metadata status.
    pub fn label(self) -> (r: &'static str)
        ensures
            r@ == self.spec_label(),
    {
        match self {
            WorkspaceMetadataStatus::MissingRecord => "missing_record",
            WorkspaceMetadataStatus::PresentWithoutPath => "present_without_path",
            WorkspaceMetadataStatus::PresentWithPath => "present_with_path",
        }
    }
}

/// Display state for a workspace path.
#[derive(Clone, Copy, Debug, PartialEq, Eq, Structural)]
pub enum WorkspacePathState {
    /// Path is confirmed from the current workspace or JJ.
    Confirmed,
    /// Path was inferred from validated fallback data.
    Inferred,
    /// Best known path does not exist on disk.
    Missing,
    /// Best known path exists but no longer validates.
    Stale,
}

impl WorkspacePathState {
    /// The machine-readable label.
    pub open spec fn spec_label(self) -> Seq<char> {
        match self {
            WorkspacePathState::Confirmed => "confirmed"@,
            WorkspacePathState::Inferred => "inferred"@,
            WorkspacePathState::Missing => "missing"@,
            WorkspacePathState::Stale => "stale"@,
        }
    }

    /// Return the machine-readable label for this path state.
    pub fn label(self) -> (r: &'static str)
        ensures
            r@ == self.spec_label(),
    {
        match self {
            WorkspacePathState::Confirmed => "confirmed",
            WorkspacePathState::Inferred => "inferred",
            WorkspacePathState::Missing => "missing",
            WorkspacePathState::Stale => "stale",
        }
    }
}

/// Compact status label rendered by `navi list`.
#[derive(Clone, Copy, Debug, PartialEq, Eq, Structural)]
pub enum WorkspaceListStatus {
    /// Workspace looks healthy.
    Healthy,
    /// Workspace path came from validated fallback data.
    Inferred,
    /// Best known workspace path is missing.
    Missing,
    /// Best known workspace path is stale.
    Stale,
    /// JJ knows the workspace but metadata does not.
    JjOnly,
    /// Workspace could not be made current before rendering.
    NotCurrent,
}

impl WorkspaceListStatus {
    /// The human-facing label.
    pub open spec fn spec_label(self) -> Seq<char> {
        match self {
            WorkspaceListStatus::Healthy => "ok"@,
            WorkspaceListStatus::Inferred => "inferred"@,
            WorkspaceListStatus::Missing => "missing"@,
            WorkspaceListStatus::Stale => "stale"@,
            WorkspaceListStatus::JjOnly => "jj-only"@,
            WorkspaceListStatus::NotCurrent => "not-current"@,
        }
    }

    /// Return the human-facing label for this status.
    pub fn label(self) -> (r: &'static str)
        ensures
            r@ == self.spec_label(),
    {
        match self {
            WorkspaceListStatus::Healthy => "ok",
            WorkspaceListStatus::Inferred => "inferred",
            WorkspaceListStatus::Missing => "missing",
            WorkspaceListStatus::Stale => "stale",
            WorkspaceListStatus::JjOnly => "jj-only",
            WorkspaceListStatus::NotCurrent => "not-current",
        }
    }
}

/// Machine-readable workspace freshness state.
#[derive(Clone, Copy, Debug, PartialEq, Eq, Structural)]
pub enum WorkspaceFreshnessStatus {
    /// Workspace was made current before rendering.
    Current,
    /// Workspace path is missing and could not be refreshed.
    SkippedMissing,
    /// Workspace path is stale and could not be refreshed safely.
    SkippedStale,
    /// Workspace path is not trusted enough to run JJ in it.
    SkippedUntrusted,
    /// JJ failed while making the workspace current.
    Failed,
    /// JJ exceeded the deadline while making the workspace current.
    TimedOut,
}

impl WorkspaceFreshnessStatus {
    /// The machine-readable label.
    pub open spec fn spec_label(self) -> Seq<char> {
        match self {
            WorkspaceFreshnessStatus::Current => "current"@,
            WorkspaceFreshnessStatus::SkippedMissing => "skipped_missing"@,
            WorkspaceFreshnessStatus::SkippedStale => "skipped_stale"@,
            WorkspaceFreshnessStatus::SkippedUntrusted => "skipped_untrusted"@,
            WorkspaceFreshnessStatus::Failed => "failed"@,
            WorkspaceFreshnessStatus::TimedOut => "timed_out"@,
        }
    }

    /// Return the machine-readable freshness label.
    pub fn label(self) -> (r: &'static str)
        ensures
            r@ == self.spec_label(),
    {
        match self {
            WorkspaceFreshnessStatus::Current => "current",
            WorkspaceFreshnessStatus::SkippedMissing => "skipped_missing",
            WorkspaceFreshnessStatus::SkippedStale => "skipped_stale",
            WorkspaceFreshnessStatus::SkippedUntrusted => "skipped_untrusted",
            WorkspaceFreshnessStatus::Failed => "failed",
            WorkspaceFreshnessStatus::TimedOut => "timed_out",
        }
    }
}

/// Whether the JJ state of a workspace was made current before rendering it.
#[derive(Debug, PartialEq, Eq)]
pub struct WorkspaceFreshnessSnapshot {
    /// Machine-readable freshness state.
    pub status: WorkspaceFreshnessStatus,
    /// Optional user-facing reason when freshness could not be established.
    pub reason: Option<String>,
}

impl WorkspaceFreshnessSnapshot {
    /// Return a successful freshness snapshot.
    pub fn current() -> (r: Self)
        ensures
            r.status == WorkspaceFreshnessStatus::Current,
            r.reason is None,
    {
        WorkspaceFreshnessSnapshot { status: WorkspaceFreshnessStatus::Current, reason: None }
    }

    /// Return a freshness snapshot for a skipped missing path.
    pub fn skipped_missing() -> (r: Self)
        ensures
            r.status == WorkspaceFreshnessStatus::SkippedMissing,
            r.reason matches Some(m) && m@ == "workspace path is missing"@,
    {
        WorkspaceFreshnessSnapshot {
            status: WorkspaceFreshnessStatus::SkippedMissing,
            reason: Some("workspace path is missing".to_owned()),
        }
    }

    /// Return a freshness snapshot for a skipped stale path.
    pub fn skipped_stale() -> (r: Self)
        ensures
            r.status == WorkspaceFreshnessStatus::SkippedStale,
            r.reason matches Some(m) && m@ == "workspace path is stale"@,
    {
        WorkspaceFreshnessSnapshot {
            status: WorkspaceFreshnessStatus::SkippedStale,
            reason: Some("workspace path is stale".to_owned()),
        }
    }

    /// Return a freshness snapshot for a skipped untrusted path.
    pub fn skipped_untrusted() -> (r: Self)
        ensures
            r.status == WorkspaceFreshnessStatus::SkippedUntrusted,
            r.reason matches Some(m) && m@ == "workspace path is not trusted"@,
    {
        WorkspaceFreshnessSnapshot {
            status: WorkspaceFreshnessStatus::SkippedUntrusted,
            reason: Some("workspace path is not trusted".to_owned()),
        }
    }

    /// Return a failed freshness snapshot.
    pub fn failed(reason: &str) -> (r: Self)
        ensures
            r.status == WorkspaceFreshnessStatus::Failed,
            r.reason matches Some(m) && m@ == reason@,
    {
        WorkspaceFreshnessSnapshot {
            status: WorkspaceFreshnessStatus::Failed,
            reason: Some(reason.to_owned()),
        }
    }

    /// Return a timed out freshness snapshot.
    pub fn timed_out() -> (r: Self)
        ensures
            r.status == WorkspaceFreshnessStatus::TimedOut,
            r.reason matches Some(m) && m@
                == "workspace could not be made current before the deadline"@,
    {
        WorkspaceFreshnessSnapshot {
            status: WorkspaceFreshnessStatus::TimedOut,
            reason: Some("workspace could not be made current before the deadline".to_owned()),
        }
    }
}

impl Default for WorkspaceFreshnessSnapshot {
    fn default() -> (r: Self)
        ensures
            r.status == WorkspaceFreshnessStatus::Current,
            r.reason is None,
    {
        Self::current()
    }
}

impl Clone for WorkspaceFreshnessSnapshot {
    fn clone(&self) -> (r: Self)
        ensures
            r == *self,
    {
        let reason = match &self.reason {
            Some(m) => Some(m.clone()),
            None => None,
        };
        WorkspaceFreshnessSnapshot { status: self.status, reason }
    }
}

/// Whether workspace diff statistics were available.
#[derive(Clone, Copy, Debug, PartialEq, Eq, Structural)]
pub enum WorkspaceDiffStatus {
    /// Diff statistics were collected.
    Available,
    /// Diff statistics could not be collected.
    Unknown,
}

impl WorkspaceDiffStatus {
    /// The machine-readable label.
    pub open spec fn spec_label(self) -> Seq<char> {
        match self {
            WorkspaceDiffStatus::Available => "available"@,
            WorkspaceDiffStatus::Unknown => "unknown"@,
        }
    }

    /// Return the machine-readable diff status label.
    pub fn label(self) -> (r: &'static str)
        ensures
            r@ == self.spec_label(),
    {
        match self {
            WorkspaceDiffStatus::Available => "available",
            WorkspaceDiffStatus::Unknown => "unknown",
        }
    }
}

/// Compact diff statistics for a workspace's working-copy commit.
#[derive(Clone, Copy, Debug, PartialEq, Eq, Structural)]
pub struct WorkspaceDiffSnapshot {
    /// Whether diff statistics were available.
    pub status: WorkspaceDiffStatus,
    /// Number of changed files, when known.
    pub files_changed: Option<u32>,
    /// Number of inserted lines, when known.
    pub insertions: Option<u32>,
    /// Number of deleted lines, when known.
    pub deletions: Option<u32>,
}

impl WorkspaceDiffSnapshot {
    /// Diff statistics that are not known.
    pub open spec fn unknown_spec() -> WorkspaceDiffSnapshot {
        WorkspaceDiffSnapshot {
            status: WorkspaceDiffStatus::Unknown,
            files_changed: None,
            insertions: None,
            deletions: None,
        }
    }

    /// Return unknown diff statistics.
    pub fn unknown() -> (r: Self)
        ensures
            r == (WorkspaceDiffSnapshot {
                status: WorkspaceDiffStatus::Unknown,
                files_changed: None,
                insertions: None,
                deletions: None,
            }),
    {
        WorkspaceDiffSnapshot {
            status: WorkspaceDiffStatus::Unknown,
            files_changed: None,
            insertions: None,
            deletions: None,
        }
    }
}

impl Default for WorkspaceDiffSnapshot {
    fn default() -> (r: Self)
        ensures
            r.status == WorkspaceDiffStatus::Unknown,
            r.files_changed is None,
            r.insertions is None,
            r.deletions is None,
    {
        Self::unknown()
    }
}

/// A moment as `time::OffsetDateTime` holds it: the Unix time in whole
/// seconds, the nanoseconds within that second, and the UTC offset it is
/// written in, in seconds east of UTC.
#[derive(Clone, Copy, Debug, PartialEq, Eq, Structural)]
pub struct Timestamp {
    /// Whole seconds since the Unix epoch.
    pub unix_seconds: i64,
    /// Nanoseconds within the second.
    pub nanosecond: u32,
    /// UTC offset, in seconds east of UTC.
    pub offset_seconds: i32,
}

/// The nanoseconds from the Unix epoch to `t`.
pub open spec fn unix_nanos(t: Timestamp) -> int {
    t.unix_seconds * 1_000_000_000 + t.nanosecond
}

/// The whole seconds from `from` to `to`, rounded toward zero, as
/// `time::Duration::whole_seconds` gives them for `to - from`.
pub open spec fn elapsed_seconds(from: Timestamp, to: Timestamp) -> int {
    let d = unix_nanos(to) - unix_nanos(from);
    if d >= 0 {
        d / 1_000_000_000
    } else {
        -((-d) / 1_000_000_000)
    }
}

/// The whole seconds from `from` to `to`, rounded toward zero.
pub fn elapsed_whole_seconds(from: Timestamp, to: Timestamp) -> (r: i128)
    ensures
        r == elapsed_seconds(from, to),
        r <= u64::MAX as int + 5,
{
    let d: i128 = (to.unix_seconds as i128 - from.unix_seconds as i128) * 1_000_000_000 + (to.nanosecond as i128
        - from.nanosecond as i128);
    assert(d == unix_nanos(to) - unix_nanos(from)) by (nonlinear_arith)
        requires
            d == (to.unix_seconds - from.unix_seconds) * 1_000_000_000 + (to.nanosecond - from.nanosecond),
    ;
    assert(d <= (u64::MAX as int) * 1_000_000_000 + u32::MAX as int) by (nonlinear_arith)
        requires
            d == (to.unix_seconds - from.unix_seconds) * 1_000_000_000 + (to.nanosecond - from.nanosecond),
            to.unix_seconds - from.unix_seconds <= u64::MAX as int,
            to.nanosecond - from.nanosecond <= u32::MAX as int,
    ;
    if d >= 0 {
        d / 1_000_000_000
    } else {
        -((-d) / 1_000_000_000)
    }
}

/// Workspace creation metadata used for compact age rendering.
#[derive(Clone, Copy, Debug, PartialEq, Eq, Structural)]
pub struct WorkspaceAgeSnapshot {
    /// Creation time, when recorded.
    pub created_at: Option<Timestamp>,
}

impl WorkspaceAgeSnapshot {
    /// Return an unknown age snapshot.
    pub fn unknown() -> (r: Self)
        ensures
            r.created_at is None,
    {
        WorkspaceAgeSnapshot { created_at: None }
    }
}

impl Default for WorkspaceAgeSnapshot {
    fn default() -> (r: Self)
        ensures
            r.created_at is None,
    {
        Self::unknown()
    }
}

/// Shared path snapshot for one workspace.
#[derive(Debug, PartialEq, Eq)]
pub struct WorkspacePathSnapshot {
    /// Absolute workspace path chosen by resolution.
    pub path: String,
    /// How trustworthy the resolved path is.
    pub state: WorkspacePathState,
    /// Which source produced the chosen path.
    pub source: WorkspacePathSource,
}

/// Shared health snapshot for one workspace.
#[derive(Debug, PartialEq, Eq)]
pub struct WorkspaceHealthSnapshot {
    /// Compact list-facing health statuses.
    pub statuses: Vec<WorkspaceListStatus>,
    /// Repo-scoped metadata presence for this workspace.
    pub metadata_status: WorkspaceMetadataStatus,
}

/// Shared repo-domain snapshot for one workspace.
#[derive(Debug, PartialEq, Eq)]
pub struct WorkspaceSnapshot {
    /// Whether this workspace is the current working copy.
    pub is_current: bool,
    /// Workspace name.
    pub name: WorkspaceName,
    /// Resolved path snapshot.
    pub path: WorkspacePathSnapshot,
    /// Derived workspace health snapshot.
    pub health: WorkspaceHealthSnapshot,
    /// Short commit identifier.
    pub commit_id: String,
    /// Short change identifier.
    pub change_id: String,
    /// First-line commit description.
    pub message: String,
    /// Whether this workspace was made current before rendering.
    pub freshness: WorkspaceFreshnessSnapshot,
    /// Compact diff statistics for the working-copy commit.
    pub diff: WorkspaceDiffSnapshot,
    /// Workspace age metadata.
    pub age: WorkspaceAgeSnapshot,
}

/// Render-ready workspace row for `navi list`.
#[derive(Debug, PartialEq, Eq)]
pub struct WorkspaceListEntry {
    /// Whether this row represents the active workspace.
    pub is_current: bool,
    /// Workspace name.
    pub name: WorkspaceName,
    /// Compact status labels shown in the list table.
    pub statuses: Vec<WorkspaceListStatus>,
    /// Display path shown in the table.
    pub path: String,
    /// How trustworthy the rendered path is.
    pub path_state: WorkspacePathState,
    /// Short commit identifier.
    pub commit_id: String,
    /// First-line commit description.
    pub message: String,
    /// Whether this workspace was made current before rendering.
    pub freshness: WorkspaceFreshnessSnapshot,
    /// Compact diff statistics for the working-copy commit.
    pub diff: WorkspaceDiffSnapshot,
    /// Workspace age metadata.
    pub age: WorkspaceAgeSnapshot,
}

/// The parts of a freshness snapshot: status and reason.
pub open spec fn freshness_view(f: WorkspaceFreshnessSnapshot) -> (WorkspaceFreshnessStatus, Option<Seq<char>>) {
    (f.status, match f.reason {
        Some(m) => Some(m@),
        None => None,
    })
}

/// The parts of a workspace snapshot, as plain values.
pub type SnapshotView = (
    bool,
    Seq<char>,
    (Seq<char>, WorkspacePathState, WorkspacePathSource),
    (Seq<WorkspaceListStatus>, WorkspaceMetadataStatus),
    (Seq<char>, Seq<char>, Seq<char>),
    (WorkspaceFreshnessStatus, Option<Seq<char>>),
    WorkspaceDiffSnapshot,
    WorkspaceAgeSnapshot,
);

/// The parts of a workspace snapshot.
pub open spec fn snapshot_view(s: WorkspaceSnapshot) -> SnapshotView {
    (
        s.is_current,
        s.name@,
        (s.path.path@, s.path.state, s.path.source),
        (s.health.statuses@, s.health.metadata_status),
        (s.commit_id@, s.change_id@, s.message@),
        freshness_view(s.freshness),
        s.diff,
        s.age,
    )
}

/// Copy a list of statuses.
pub fn clone_statuses(v: &Vec<WorkspaceListStatus>) -> (r: Vec<WorkspaceListStatus>)
    ensures
        r@ == v@,
{
    let mut out: Vec<WorkspaceListStatus> = Vec::new();
    let mut i: usize = 0;
    while i < v.len()
        invariant
            i <= v@.len(),
            out@ == v@.take(i as int),
        decreases v@.len() - i,
    {
        out.push(v[i]);
        i += 1;
        assert(out@ =~= v@.take(i as int));
    }
    assert(v@.take(i as int) =~= v@);
    out
}

impl WorkspaceSnapshot {
    /// A copy of the snapshot.
    pub fn duplicate(&self) -> (r: WorkspaceSnapshot)
        ensures
            snapshot_view(r) == snapshot_view(*self),
    {
        WorkspaceSnapshot {
            is_current: self.is_current,
            name: self.name.clone(),
            path: WorkspacePathSnapshot {
                path: self.path.path.clone(),
                state: self.path.state,
                source: self.path.source,
            },
            health: WorkspaceHealthSnapshot {
                statuses: clone_statuses(&self.health.statuses),
                metadata_status: self.health.metadata_status,
            },
            commit_id: self.commit_id.clone(),
            change_id: self.change_id.clone(),
            message: self.message.clone(),
            freshness: self.freshness.clone(),
            diff: self.diff,
            age: self.age,
        }
    }
}

/// Which side of a merge preview a workspace plays, with its snapshot.
#[derive(Debug)]
pub struct MergePreviewWorkspace {
    /// The workspace's snapshot.
    pub snapshot: WorkspaceSnapshot,
    /// Its path as shown.
    pub display_path: String,
}

/// A read-only preview of carrying one workspace's change onto another's.
#[derive(Debug)]
pub struct MergePreview {
    /// The workspace whose change is carried.
    pub source: MergePreviewWorkspace,
    /// The workspace that receives it.
    pub target: MergePreviewWorkspace,
    /// The `jj` commands that would do it.
    pub commands: Vec<String>,
}

} // verus!
