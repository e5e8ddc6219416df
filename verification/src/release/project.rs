//! The release files of the project: the Cargo manifest, the README install
//! line, and the npm wrapper package, and the checks that keep their
//! versions in step.

use vstd::prelude::*;
use vstd::string::*;

use super::error::ToolError;
use super::version::{
    compare_versions, parse_version, push_version, semver_error, semver_parse, version_order, version_text,
    SemVersion,
};
use super::{
    prs_sorted, pull_requests_problem, sort_pull_requests, validate_release_input, PullRequestMetadata, ReleaseInput,
};
use crate::text::decimal;
use crate::text::{
    append_range, chars_of, contains_seq, contains_str, find_char_from, find_str, first_occurrence, str_equal,
};

verus! {

/// A JSON document, as the project's package files hold it. An object's
/// fields are in document order, each key once.
#[derive(Debug)]
pub enum JsonValue {
    /// `null`.
    Null,
    /// `true` or `false`.
    Bool(bool),
    /// A number, as written.
    Number(String),
    /// A string.
    Text(String),
    /// An array.
    Array(Vec<JsonValue>),
    /// An object.
    Object(Vec<(String, JsonValue)>),
}

/// The value of the first field named `key`.
pub open spec fn json_field(fields: Seq<(String, JsonValue)>, key: Seq<char>) -> Option<JsonValue>
    decreases fields.len(),
{
    if fields.len() == 0 {
        None
    } else if fields[0].0@ == key {
        Some(fields[0].1)
    } else {
        json_field(fields.drop_first(), key)
    }
}

/// The field `key` of an object; nothing for another value.
pub open spec fn json_get(value: JsonValue, key: Seq<char>) -> Option<JsonValue> {
    match value {
        JsonValue::Object(fields) => json_field(fields@, key),
        _ => None,
    }
}

/// The text of a string value.
pub open spec fn json_text(value: Option<JsonValue>) -> Option<Seq<char>> {
    match value {
        Some(JsonValue::Text(s)) => Some(s@),
        _ => None,
    }
}

/// The truth value of a boolean value.
pub open spec fn json_bool(value: Option<JsonValue>) -> Option<bool> {
    match value {
        Some(JsonValue::Bool(b)) => Some(b),
        _ => None,
    }
}

/// The fields of an object value.
pub open spec fn json_fields(value: Option<JsonValue>) -> Option<Seq<(String, JsonValue)>> {
    match value {
        Some(JsonValue::Object(fields)) => Some(fields@),
        _ => None,
    }
}

/// The field `key` of an object.
pub fn get_field<'a>(value: &'a JsonValue, key: &str) -> (r: Option<&'a JsonValue>)
    ensures
        match r {
            Some(v) => json_get(*value, key@) == Some(*v),
            None => json_get(*value, key@) is None,
        },
{
    match value {
        JsonValue::Object(fields) => {
            let mut i: usize = 0;
            assert(fields@.skip(0) =~= fields@);
            while i < fields.len()
                invariant
                    i <= fields@.len(),
                    json_get(*value, key@) == json_field(fields@, key@),
                    json_field(fields@, key@) == json_field(fields@.skip(i as int), key@),
                decreases fields@.len() - i,
            {
                assert(fields@.skip(i as int).drop_first() =~= fields@.skip(i + 1));
                assert(fields@.skip(i as int)[0] == fields@[i as int]);
                if str_equal(fields[i].0.as_str(), key) {
                    let ghost rest = fields@.skip(i as int);
                    assert(rest[0].0@ == key@);
                    assert(json_field(rest, key@) == Some(rest[0].1));
                    return Some(&fields[i].1);
                }
                i += 1;
            }
            assert(fields@.skip(i as int) =~= Seq::<(String, JsonValue)>::empty());
            None
        },
        _ => None,
    }
}

/// The text of a string value.
pub fn as_text(value: Option<&JsonValue>) -> (r: Option<&str>)
    ensures
        match r {
            Some(t) => json_text(match value { Some(v) => Some(*v), None => None }) == Some(t@),
            None => json_text(match value { Some(v) => Some(*v), None => None }) is None,
        },
{
    match value {
        Some(JsonValue::Text(s)) => Some(s.as_str()),
        _ => None,
    }
}

/// The truth value of a boolean value.
pub fn as_bool(value: Option<&JsonValue>) -> (r: Option<bool>)
    ensures
        r == json_bool(match value { Some(v) => Some(*v), None => None }),
{
    match value {
        Some(JsonValue::Bool(b)) => Some(*b),
        _ => None,
    }
}

/// The prefix of the README line that carries the install version.
pub open spec fn install_line_prefix() -> Seq<char> {
    "cargo install jj-navi --version "@
}

/// The README with the install line's version replaced: the text from the
/// line's prefix up to the end of its line becomes the prefix and
/// `version`.
pub open spec fn readme_with_version(readme: Seq<char>, version: Seq<char>) -> Option<Seq<char>> {
    match first_occurrence(readme, install_line_prefix(), 0) {
        None => None,
        Some(start) => {
            let end = match first_occurrence(readme, seq!['\n'], start) {
                Some(e) => e,
                None => readme.len() as int,
            };
            Some(readme.take(start) + install_line_prefix() + version + readme.skip(end))
        },
    }
}

/// Set the version on the README's `cargo install` line.
pub fn update_root_readme_version(readme: &str, version: &str) -> (r: Result<String, ToolError>)
    ensures
        match readme_with_version(readme@, version@) {
            Some(t) => r matches Ok(s) && s@ == t,
            None => r matches Err(ToolError::Message(m)) && m@ == "README install version not found"@,
        },
{
    proof {
        reveal_strlit("cargo install jj-navi --version ");
    }
    let start = match find_str(readme, "cargo install jj-navi --version ") {
        Some(s) => s,
        None => return Err(ToolError::message("README install version not found")),
    };
    let v = chars_of(readme);
    proof {
        crate::text::lemma_first_occurrence(readme@, install_line_prefix(), 0);
    }
    let end = match find_char_from(&v, '\n', start) {
        Some(e) => e,
        None => v.len(),
    };
    proof {
        crate::text::lemma_first_occurrence(readme@, seq!['\n'], start as int);
        let e = first_occurrence(readme@, seq!['\n'], start as int);
        match e {
            Some(k) => {
                assert(crate::text::occurs_at(readme@, seq!['\n'], k));
                assert(readme@.subrange(k, k + 1) == seq!['\n']);
                assert(readme@[k] == readme@.subrange(k, k + 1)[0]);
                if k != end as int {
                    if k < end as int {
                        assert(v@[k] == '\n');
                    } else {
                        assert(v@[end as int] == '\n');
                        assert(readme@.subrange(end as int, end + 1) =~= seq!['\n']);
                        assert(crate::text::occurs_at(readme@, seq!['\n'], end as int));
                    }
                }
            },
            None => {
                if end < v.len() {
                    assert(readme@.subrange(end as int, end + 1) =~= seq!['\n']);
                    assert(crate::text::occurs_at(readme@, seq!['\n'], end as int));
                }
            },
        }
    }
    let mut out = String::new();
    append_range(&mut out, &v, 0, start);
    out.append("cargo install jj-navi --version ");
    out.append(version);
    append_range(&mut out, &v, end, v.len());
    assert(v@.subrange(0, start as int) =~= readme@.take(start as int));
    assert(v@.subrange(end as int, v.len() as int) =~= readme@.skip(end as int));
    Ok(out)
}

/// What is found at a candidate directory of the repository root: the
/// version-control directories and the project's own files.
#[derive(Debug)]
pub struct RepoCandidate {
    /// The directory.
    pub path: String,
    /// `.jj` exists.
    pub has_jj: bool,
    /// `.git` exists.
    pub has_git: bool,
    /// `Cargo.toml` is a file.
    pub has_cargo_manifest: bool,
    /// `CHANGELOG.md` is a file.
    pub has_changelog: bool,
    /// `.github/workflows` is a directory.
    pub has_workflows: bool,
    /// `npm/jj-navi/package.json` is a file.
    pub has_npm_package: bool,
    /// `xtask/Cargo.toml` is a file.
    pub has_xtask_manifest: bool,
}

impl RepoCandidate {
    /// Under version control with `jj` or `git`.
    pub open spec fn spec_has_vcs_marker(self) -> bool {
        self.has_jj || self.has_git
    }

    /// Holds all the project's marker files.
    pub open spec fn spec_has_repo_markers(self) -> bool {
        self.has_cargo_manifest && self.has_changelog && self.has_workflows && self.has_npm_package
            && self.has_xtask_manifest
    }

    /// The root of this project's repository.
    pub open spec fn spec_is_repo_root(self) -> bool {
        self.spec_has_vcs_marker() && self.spec_has_repo_markers()
    }
}

/// Whether the candidate is under version control.
pub fn has_vcs_marker(candidate: &RepoCandidate) -> (r: bool)
    ensures
        r == candidate.spec_has_vcs_marker(),
{
    candidate.has_jj || candidate.has_git
}

/// Whether the candidate holds the project's marker files.
pub fn has_repo_markers(candidate: &RepoCandidate) -> (r: bool)
    ensures
        r == candidate.spec_has_repo_markers(),
{
    candidate.has_cargo_manifest && candidate.has_changelog && candidate.has_workflows && candidate.has_npm_package
        && candidate.has_xtask_manifest
}

/// Whether the candidate is the project's repository root.
pub fn is_repo_root(candidate: &RepoCandidate) -> (r: bool)
    ensures
        r == candidate.spec_is_repo_root(),
{
    has_vcs_marker(candidate) && has_repo_markers(candidate)
}

/// The first candidate, from the start directory up through its
/// ancestors, that is the repository root.
pub fn find_repo_root(candidates: &[RepoCandidate]) -> (r: Result<String, ToolError>)
    ensures
        match r {
            Ok(p) => exists|i: int| 0 <= i < candidates@.len() && (#[trigger] candidates@[i]).spec_is_repo_root()
                && candidates@[i].path@ == p@ && forall|j: int| 0 <= j < i ==> !(#[trigger] candidates@[j]).spec_is_repo_root(),
            Err(e) => (forall|j: int| 0 <= j < candidates@.len() ==> !(#[trigger] candidates@[j]).spec_is_repo_root())
                && (e matches ToolError::Message(m) && m@ == "navi-release must run inside the jj-navi repo"@),
        },
{
    let mut i: usize = 0;
    while i < candidates.len()
        invariant
            i <= candidates@.len(),
            forall|j: int| 0 <= j < i ==> !(#[trigger] candidates@[j]).spec_is_repo_root(),
        decreases candidates@.len() - i,
    {
        if is_repo_root(&candidates[i]) {
            return Ok(candidates[i].path.clone());
        }
        i += 1;
    }
    Err(ToolError::message("navi-release must run inside the jj-navi repo"))
}

/// The platforms the npm package ships for: the keys of the platforms
/// document, which must be an object.
pub fn supported_platforms(platforms: &JsonValue) -> (r: Result<Vec<String>, ToolError>)
    ensures
        match *platforms {
            JsonValue::Object(fields) => r matches Ok(keys) && keys@.len() == fields@.len() && forall|k: int|
                0 <= k < keys@.len() ==> (#[trigger] keys@[k])@ == fields@[k].0@,
            _ => r matches Err(ToolError::Message(m)) && m@ == "platforms.json must be an object"@,
        },
{
    match platforms {
        JsonValue::Object(fields) => {
            let mut keys: Vec<String> = Vec::new();
            let mut i: usize = 0;
            while i < fields.len()
                invariant
                    i <= fields@.len(),
                    keys@.len() == i,
                    forall|k: int| 0 <= k < i ==> (#[trigger] keys@[k])@ == fields@[k].0@,
                decreases fields@.len() - i,
            {
                keys.push(fields[i].0.clone());
                i += 1;
            }
            Ok(keys)
        },
        _ => Err(ToolError::message("platforms.json must be an object")),
    }
}

/// How a check of the release files ends: it passes, hands on the error of
/// reading an input, fails with a message, or meets a text that is not a
/// version.
pub enum CheckOutcome {
    /// Every check passed.
    Pass,
    /// Reading an input failed with this error.
    Failed(ToolError),
    /// A check failed with this message.
    Message(Seq<char>),
    /// This text is not a semantic version.
    BadVersion(Seq<char>),
}

/// Whether `r` is the result a check with this outcome returns.
pub open spec fn ends_as(outcome: CheckOutcome, r: Result<(), ToolError>) -> bool {
    match outcome {
        CheckOutcome::Pass => r is Ok,
        CheckOutcome::Failed(e) => r == Err::<(), ToolError>(e),
        CheckOutcome::Message(m) => r matches Err(ToolError::Message(x)) && x@ == m,
        CheckOutcome::BadVersion(t) => semver_parse(t) is None && (r matches Err(ToolError::Semver(m)) && m@ == semver_error(t)),
    }
}

/// The version of the npm package: its `version` field, which must be a
/// semantic version.
pub open spec fn package_version_of(package: JsonValue) -> Result<(u64, u64, u64, Seq<char>, Seq<char>), CheckOutcome> {
    match json_text(json_get(package, "version"@)) {
        None => Err(CheckOutcome::Message("could not read npm package version"@)),
        Some(t) => match semver_parse(t) {
            None => Err(CheckOutcome::BadVersion(t)),
            Some(v) => Ok(v),
        },
    }
}

/// Read the npm package's version.
pub fn current_package_version(package: &JsonValue) -> (r: Result<SemVersion, ToolError>)
    ensures
        match package_version_of(*package) {
            Ok(v) => r matches Ok(x) && x@ == v,
            Err(o) => ends_as(o, match r { Ok(_) => Ok(()), Err(e) => Err(e) }),
        },
{
    proof {
        reveal_strlit("version");
    }
    match as_text(get_field(package, "version")) {
        None => Err(ToolError::message("could not read npm package version")),
        Some(t) => parse_version(t),
    }
}

/// The first platform whose optional dependency is missing or not at
/// `version`, as its message.
pub open spec fn platform_problem(deps: Seq<(String, JsonValue)>, platforms: Seq<(String, JsonValue)>, version: Seq<char>) -> Option<Seq<char>>
    decreases platforms.len(),
{
    if platforms.len() == 0 {
        None
    } else {
        let name = "jj-navi-"@ + platforms[0].0@;
        match json_text(json_field(deps, name)) {
            None => Some("missing optional dependency "@ + name),
            Some(v) => if v != version {
                Some("optional dependency mismatch for "@ + name + ": expected "@ + version + ", got "@ + v)
            } else {
                platform_problem(deps, platforms.drop_first(), version)
            },
        }
    }
}

/// The checks on the npm package's object after the README checks:
/// optional dependencies for exactly the supported platforms, each at the
/// version, and public publishing with provenance.
pub open spec fn package_check(
    package: JsonValue,
    platforms: Result<JsonValue, ToolError>,
    version: Seq<char>,
) -> CheckOutcome {
    match package {
        JsonValue::Object(fields) => match json_fields(json_field(fields@, "optionalDependencies"@)) {
            None => CheckOutcome::Message("optionalDependencies missing"@),
            Some(deps) => match platforms {
                Err(e) => CheckOutcome::Failed(e),
                Ok(JsonValue::Object(pf)) => if deps.len() != pf@.len() {
                    CheckOutcome::Message("npm optionalDependencies do not match supported platforms"@)
                } else {
                    match platform_problem(deps, pf@, version) {
                        Some(m) => CheckOutcome::Message(m),
                        None => {
                            let publish = json_fields(json_field(fields@, "publishConfig"@));
                            let access = match publish {
                                Some(p) => json_text(json_field(p, "access"@)),
                                None => None,
                            };
                            let provenance = match publish {
                                Some(p) => json_bool(json_field(p, "provenance"@)),
                                None => None,
                            };
                            if access != Some("public"@) {
                                CheckOutcome::Message("npm publishConfig.access must be public"@)
                            } else if provenance != Some(true) {
                                CheckOutcome::Message("npm publishConfig.provenance must be true"@)
                            } else {
                                CheckOutcome::Pass
                            }
                        },
                    }
                },
                Ok(_) => CheckOutcome::Message("platforms.json must be an object"@),
            },
        },
        _ => CheckOutcome::Message("npm package.json must be an object"@),
    }
}

/// Every release file at `version`, in the order the checks run: the Cargo
/// manifest, the npm package, the README install line, the npm README (a
/// copy of the README), then the package's dependencies and publishing.
pub open spec fn versions_check(
    version: (u64, u64, u64, Seq<char>, Seq<char>),
    cargo_version: Result<(u64, u64, u64, Seq<char>, Seq<char>), ToolError>,
    package: Result<JsonValue, ToolError>,
    readme: Result<Seq<char>, ToolError>,
    wrapper_readme: Result<Seq<char>, ToolError>,
    platforms: Result<JsonValue, ToolError>,
) -> CheckOutcome {
    let vt = version_text(version);
    match cargo_version {
        Err(e) => CheckOutcome::Failed(e),
        Ok(cv) => if cv != version {
            CheckOutcome::Message("Cargo.toml version mismatch: expected "@ + vt + ", got "@ + version_text(cv))
        } else {
            match package {
                Err(e) => CheckOutcome::Failed(e),
                Ok(pj) => match package_version_of(pj) {
                    Err(o) => o,
                    Ok(pv) => if pv != version {
                        CheckOutcome::Message(
                            "npm/jj-navi/package.json version mismatch: expected "@ + vt + ", got "@ + version_text(pv),
                        )
                    } else {
                        match readme {
                            Err(e) => CheckOutcome::Failed(e),
                            Ok(rd) => if !contains_seq(rd, install_line_prefix() + vt) {
                                CheckOutcome::Message(
                                    "README version mismatch: expected line '"@ + install_line_prefix() + vt + "'"@,
                                )
                            } else {
                                match wrapper_readme {
                                    Err(e) => CheckOutcome::Failed(e),
                                    Ok(w) => if w != rd {
                                        CheckOutcome::Message("npm/jj-navi/README.md must stay in sync with README.md"@)
                                    } else {
                                        package_check(pj, platforms, vt)
                                    },
                                }
                            },
                        }
                    },
                },
            }
        },
    }
}

/// The text of a read result.
pub open spec fn text_result(r: Result<String, ToolError>) -> Result<Seq<char>, ToolError> {
    match r {
        Ok(s) => Ok(s@),
        Err(e) => Err(e),
    }
}

/// The version of a read result.
pub open spec fn version_result(r: Result<SemVersion, ToolError>) -> Result<(u64, u64, u64, Seq<char>, Seq<char>), ToolError> {
    match r {
        Ok(v) => Ok(v@),
        Err(e) => Err(e),
    }
}

/// Whether two versions are the same in every part.
fn same_version(a: &SemVersion, b: &SemVersion) -> (r: bool)
    ensures
        r == (a@ == b@),
{
    a.major == b.major && a.minor == b.minor && a.patch == b.patch && str_equal(a.pre.as_str(), b.pre.as_str())
        && str_equal(a.build.as_str(), b.build.as_str())
}

/// A message made of a text and a version.
fn message_with_version(text: &str, v: &SemVersion) -> (r: String)
    ensures
        r@ == text@ + version_text(v@),
{
    let mut m = String::new();
    m.append(text);
    push_version(&mut m, v);
    m
}

/// Check the optional dependencies of each platform, in order.
fn check_platforms(deps: &JsonValue, platforms: &Vec<(String, JsonValue)>, version: &str) -> (r: Result<(), ToolError>)
    ensures
        match json_fields(Some(*deps)) {
            Some(d) => match platform_problem(d, platforms@, version@) {
                None => r is Ok,
                Some(m) => r matches Err(ToolError::Message(x)) && x@ == m,
            },
            None => true,
        },
{
    let mut i: usize = 0;
    assert(platforms@.skip(0) =~= platforms@);
    while i < platforms.len()
        invariant
            i <= platforms@.len(),
            match json_fields(Some(*deps)) {
                Some(d) => platform_problem(d, platforms@, version@) == platform_problem(d, platforms@.skip(i as int), version@),
                None => true,
            },
        decreases platforms@.len() - i,
    {
        assert(platforms@.skip(i as int).drop_first() =~= platforms@.skip(i + 1));
        assert(platforms@.skip(i as int)[0] == platforms@[i as int]);
        let mut name = String::new();
        name.append("jj-navi-");
        name.append(platforms[i].0.as_str());
        proof {
            reveal_strlit("jj-navi-");
        }
        match as_text(get_field(deps, name.as_str())) {
            None => {
                let mut m = String::new();
                m.append("missing optional dependency ");
                m.append(name.as_str());
                return Err(ToolError::Message(m));
            },
            Some(found) => {
                if !str_equal(found, version) {
                    let mut m = String::new();
                    m.append("optional dependency mismatch for ");
                    m.append(name.as_str());
                    m.append(": expected ");
                    m.append(version);
                    m.append(", got ");
                    m.append(found);
                    return Err(ToolError::Message(m));
                }
            },
        }
        i += 1;
    }
    assert(platforms@.skip(i as int) =~= Seq::<(String, JsonValue)>::empty());
    Ok(())
}

/// Check the npm package's dependencies and publishing settings.
fn check_package(package: &JsonValue, platforms: Result<JsonValue, ToolError>, version: &str) -> (r: Result<(), ToolError>)
    ensures
        ends_as(package_check(*package, platforms, version@), r),
{
    proof {
        reveal_strlit("optionalDependencies");
        reveal_strlit("publishConfig");
        reveal_strlit("access");
        reveal_strlit("provenance");
        reveal_strlit("public");
    }
    match package {
        JsonValue::Object(_) => {},
        _ => return Err(ToolError::message("npm package.json must be an object")),
    }
    let deps = match get_field(package, "optionalDependencies") {
        Some(d) => match d {
            JsonValue::Object(_) => d,
            _ => return Err(ToolError::message("optionalDependencies missing")),
        },
        None => return Err(ToolError::message("optionalDependencies missing")),
    };
    let platform_doc = match platforms {
        Ok(p) => p,
        Err(e) => return Err(e),
    };
    let platform_fields = match platform_doc {
        JsonValue::Object(f) => f,
        _ => return Err(ToolError::message("platforms.json must be an object")),
    };
    let dep_count = match deps {
        JsonValue::Object(f) => f.len(),
        _ => 0,
    };
    if dep_count != platform_fields.len() {
        return Err(ToolError::message("npm optionalDependencies do not match supported platforms"));
    }
    match check_platforms(deps, &platform_fields, version) {
        Ok(()) => {},
        Err(e) => return Err(e),
    }
    let publish = get_field(package, "publishConfig");
    let publish_object = match publish {
        Some(p) => match p {
            JsonValue::Object(_) => Some(p),
            _ => None,
        },
        None => None,
    };
    let access = match publish_object {
        Some(p) => as_text(get_field(p, "access")),
        None => None,
    };
    let provenance = match publish_object {
        Some(p) => as_bool(get_field(p, "provenance")),
        None => None,
    };
    let public = match access {
        Some(a) => str_equal(a, "public"),
        None => false,
    };
    if !public {
        return Err(ToolError::message("npm publishConfig.access must be public"));
    }
    match provenance {
        Some(true) => Ok(()),
        _ => Err(ToolError::message("npm publishConfig.provenance must be true")),
    }
}

/// Check that every release file carries `version`: the Cargo manifest,
/// the npm package and its optional dependencies, both READMEs, and the
/// package's publishing settings. Each input is what reading that file
/// gave; a read error is handed on when its check comes.
pub fn ensure_versions_match(
    version: &SemVersion,
    cargo_version: Result<SemVersion, ToolError>,
    package: Result<JsonValue, ToolError>,
    readme: Result<String, ToolError>,
    wrapper_readme: Result<String, ToolError>,
    platforms: Result<JsonValue, ToolError>,
) -> (r: Result<(), ToolError>)
    ensures
        ends_as(
            versions_check(
                version@,
                version_result(cargo_version),
                package,
                text_result(readme),
                text_result(wrapper_readme),
                platforms,
            ),
            r,
        ),
{
    let cv = match cargo_version {
        Ok(v) => v,
        Err(e) => return Err(e),
    };
    if !same_version(&cv, version) {
        let mut m = message_with_version("Cargo.toml version mismatch: expected ", version);
        m.append(", got ");
        push_version(&mut m, &cv);
        return Err(ToolError::Message(m));
    }
    let pj = match package {
        Ok(p) => p,
        Err(e) => return Err(e),
    };
    let pv = match current_package_version(&pj) {
        Ok(v) => v,
        Err(e) => return Err(e),
    };
    if !same_version(&pv, version) {
        let mut m = message_with_version("npm/jj-navi/package.json version mismatch: expected ", version);
        m.append(", got ");
        push_version(&mut m, &pv);
        return Err(ToolError::Message(m));
    }
    let rd = match readme {
        Ok(t) => t,
        Err(e) => return Err(e),
    };
    let expected = message_with_version("cargo install jj-navi --version ", version);
    proof {
        reveal_strlit("cargo install jj-navi --version ");
    }
    if !contains_str(rd.as_str(), expected.as_str()) {
        let mut m = String::new();
        m.append("README version mismatch: expected line '");
        m.append(expected.as_str());
        m.append("'");
        assert(m@ =~= "README version mismatch: expected line '"@ + install_line_prefix() + version_text(version@) + "'"@);
        return Err(ToolError::Message(m));
    }
    let wr = match wrapper_readme {
        Ok(t) => t,
        Err(e) => return Err(e),
    };
    if !str_equal(wr.as_str(), rd.as_str()) {
        return Err(ToolError::message("npm/jj-navi/README.md must stay in sync with README.md"));
    }
    let vt = message_with_version("", version);
    proof {
        reveal_strlit("");
        assert(vt@ =~= version_text(version@));
    }
    check_package(&pj, platforms, vt.as_str())
}

proof fn lemma_field_push(f: Seq<(String, JsonValue)>, entry: (String, JsonValue), q: Seq<char>)
    ensures
        json_field(f.push(entry), q) == match json_field(f, q) {
            Some(x) => Some(x),
            None => if entry.0@ == q {
                Some(entry.1)
            } else {
                None
            },
        },
    decreases f.len(),
{
    if f.len() > 0 {
        assert(f.push(entry)[0] == f[0]);
        assert(f.push(entry).drop_first() =~= f.drop_first().push(entry));
        lemma_field_push(f.drop_first(), entry, q);
    } else {
        assert(f.push(entry)[0] == entry);
        assert(f.push(entry).drop_first() =~= Seq::<(String, JsonValue)>::empty());
        assert(json_field(Seq::<(String, JsonValue)>::empty(), q) is None);
    }
}

proof fn lemma_field_update(f: Seq<(String, JsonValue)>, i: int, entry: (String, JsonValue), q: Seq<char>)
    requires
        0 <= i < f.len(),
        f[i].0@ == entry.0@,
        forall|j: int| 0 <= j < i ==> (#[trigger] f[j]).0@ != entry.0@,
    ensures
        json_field(f.update(i, entry), q) == if q == entry.0@ {
            Some(entry.1)
        } else {
            json_field(f, q)
        },
    decreases i,
{
    if i == 0 {
        assert(f.update(0, entry)[0] == entry);
        assert(f.update(0, entry).drop_first() =~= f.drop_first());
    } else {
        assert(f.update(i, entry)[0] == f[0]);
        assert(f.update(i, entry).drop_first() =~= f.drop_first().update(i - 1, entry));
        assert forall|j: int| 0 <= j < i - 1 implies (#[trigger] f.drop_first()[j]).0@ != entry.0@ by {
            assert(f.drop_first()[j] == f[j + 1]);
        }
        lemma_field_update(f.drop_first(), i - 1, entry, q);
        assert(f[0].0@ != entry.0@);
    }
}

/// Set the field `key` of an object's fields: the first field with that
/// key gets the value, or the field is added at the end.
fn set_field(fields: &mut Vec<(String, JsonValue)>, key: &str, value: JsonValue)
    ensures
        forall|q: Seq<char>| #[trigger] json_field(final(fields)@, q) == if q == key@ {
            Some(value)
        } else {
            json_field(old(fields)@, q)
        },
{
    let ghost before = fields@;
    let mut i: usize = 0;
    while i < fields.len()
        invariant
            i <= fields@.len(),
            fields@ == before,
            before == old(fields)@,
            forall|j: int| 0 <= j < i ==> (#[trigger] fields@[j]).0@ != key@,
        decreases fields@.len() - i,
    {
        if str_equal(fields[i].0.as_str(), key) {
            let entry = (key.to_owned(), value);
            proof {
                assert forall|q: Seq<char>| #[trigger] json_field(before.update(i as int, entry), q) == if q == key@ {
                    Some(entry.1)
                } else {
                    json_field(before, q)
                } by {
                    lemma_field_update(before, i as int, entry, q);
                }
            }
            fields.set(i, entry);
            assert(fields@ =~= before.update(i as int, entry));
            return;
        }
        i += 1;
    }
    let entry = (key.to_owned(), value);
    proof {
        assert forall|q: Seq<char>| #[trigger] json_field(before.push(entry), q) == if q == key@ {
            Some(entry.1)
        } else {
            json_field(before, q)
        } by {
            lemma_field_push(before, entry, q);
            lemma_json_field_none(before, key@);
        }
    }
    fields.push(entry);
    assert(fields@ =~= before.push(entry));
}

proof fn lemma_json_field_none(f: Seq<(String, JsonValue)>, key: Seq<char>)
    requires
        forall|j: int| 0 <= j < f.len() ==> (#[trigger] f[j]).0@ != key,
    ensures
        json_field(f, key) is None,
    decreases f.len(),
{
    if f.len() > 0 {
        assert forall|j: int| 0 <= j < f.drop_first().len() implies (#[trigger] f.drop_first()[j]).0@ != key by {
            assert(f.drop_first()[j] == f[j + 1]);
        }
        lemma_json_field_none(f.drop_first(), key);
    }
}

/// The keys that syncing the npm package sets.
pub open spec fn synced_package_key(q: Seq<char>) -> bool {
    q == "version"@ || q == "optionalDependencies"@ || q == "publishConfig"@
}

/// The position of the first field named `key`.
fn find_field(fields: &Vec<(String, JsonValue)>, key: &str) -> (r: Option<usize>)
    ensures
        match r {
            Some(i) => i < fields@.len() && fields@[i as int].0@ == key@ && json_field(fields@, key@) == Some(
                fields@[i as int].1,
            ) && forall|j: int| 0 <= j < i ==> (#[trigger] fields@[j]).0@ != key@,
            None => json_field(fields@, key@) is None,
        },
{
    let mut i: usize = 0;
    assert(fields@.skip(0) =~= fields@);
    while i < fields.len()
        invariant
            i <= fields@.len(),
            forall|j: int| 0 <= j < i ==> (#[trigger] fields@[j]).0@ != key@,
            json_field(fields@, key@) == json_field(fields@.skip(i as int), key@),
        decreases fields@.len() - i,
    {
        assert(fields@.skip(i as int).drop_first() =~= fields@.skip(i + 1));
        assert(fields@.skip(i as int)[0] == fields@[i as int]);
        if str_equal(fields[i].0.as_str(), key) {
            return Some(i);
        }
        i += 1;
    }
    assert(fields@.skip(i as int) =~= Seq::<(String, JsonValue)>::empty());
    None
}

/// The synced package `v` of `package`: version and optional dependencies
/// set, publishing public with provenance, every other field kept.
pub open spec fn synced_package(package: JsonValue, platforms: JsonValue, version: Seq<char>, v: JsonValue) -> bool {
    &&& package is Object
    &&& platforms is Object
    &&& json_text(json_get(v, "version"@)) == Some(version)
    &&& json_fields(json_get(v, "optionalDependencies"@)) is Some
    &&& platforms_dependencies(json_fields(json_get(v, "optionalDependencies"@))->0, json_fields(Some(platforms))->0, version)
    &&& json_fields(json_get(v, "publishConfig"@)) is Some
    &&& publishing_set(json_fields(json_get(v, "publishConfig"@))->0, json_fields(json_get(package, "publishConfig"@)))
    &&& forall|q: Seq<char>| !synced_package_key(q) ==> #[trigger] json_get(v, q) == json_get(package, q)
}

/// One dependency per platform, in order, named after it and at `version`.
pub open spec fn platforms_dependencies(deps: Seq<(String, JsonValue)>, platforms: Seq<(String, JsonValue)>, version: Seq<char>) -> bool {
    &&& deps.len() == platforms.len()
    &&& forall|k: int| 0 <= k < deps.len() ==> (#[trigger] deps[k]).0@ == "jj-navi-"@ + platforms[k].0@
        && json_text(Some(deps[k].1)) == Some(version)
}

/// Public publishing with provenance, other settings as they were.
pub open spec fn publishing_set(pc: Seq<(String, JsonValue)>, old_pc: Option<Seq<(String, JsonValue)>>) -> bool {
    &&& json_text(json_field(pc, "access"@)) == Some("public"@)
    &&& json_bool(json_field(pc, "provenance"@)) == Some(true)
    &&& forall|q: Seq<char>| q != "access"@ && q != "provenance"@ ==> #[trigger] json_field(pc, q) == match old_pc {
        Some(o) => json_field(o, q),
        None => None,
    }
}

/// The npm package document with its version, its optional dependency on
/// each platform package at that version, and public publishing with
/// provenance. The package and an existing `publishConfig` must be objects,
/// and the platforms document an object.
pub fn sync_package_json(package: JsonValue, version: &str, platforms: Result<JsonValue, ToolError>) -> (r: Result<JsonValue, ToolError>)
    ensures
        !(package is Object) ==> (r matches Err(ToolError::Message(m)) && m@ == "npm package.json must be an object"@),
        package is Object && platforms is Err ==> r == Err::<JsonValue, ToolError>(platforms->Err_0),
        package is Object && (platforms matches Ok(p) && !(p is Object)) ==> (r matches Err(ToolError::Message(m)) && m@
            == "platforms.json must be an object"@),
        package is Object && (platforms matches Ok(p) && p is Object) && (json_get(package, "publishConfig"@) matches Some(c)
            && !(c is Object)) ==> (r matches Err(ToolError::Message(m)) && m@ == "publishConfig must be an object"@),
        package is Object && (platforms matches Ok(p) && p is Object) && !(json_get(package, "publishConfig"@) matches Some(
            c,
        ) && !(c is Object)) ==> r is Ok,
        r matches Ok(v) ==> synced_package(package, platforms->Ok_0, version@, v),
{
    proof {
        reveal_strlit("version");
        reveal_strlit("optionalDependencies");
        reveal_strlit("publishConfig");
        reveal_strlit("access");
        reveal_strlit("provenance");
        reveal_strlit("public");
        reveal_strlit("jj-navi-");
    }
    let mut fields = match package {
        JsonValue::Object(f) => f,
        _ => return Err(ToolError::message("npm package.json must be an object")),
    };
    let ghost given = fields@;
    let platform_doc = match platforms {
        Ok(p) => p,
        Err(e) => return Err(e),
    };
    let platform_fields = match platform_doc {
        JsonValue::Object(f) => f,
        _ => return Err(ToolError::message("platforms.json must be an object")),
    };
    let found = find_field(&fields, "publishConfig");
    let mut pc: Vec<(String, JsonValue)> = match found {
        Some(at) => {
            let is_object = match &fields[at].1 {
                JsonValue::Object(_) => true,
                _ => false,
            };
            if !is_object {
                return Err(ToolError::message("publishConfig must be an object"));
            }
            let entry = fields.remove(at);
            proof {
                assert(entry == given[at as int]);
            }
            match entry.1 {
                JsonValue::Object(p) => p,
                _ => Vec::new(),
            }
        },
        None => Vec::new(),
    };
    let ghost old_pc = pc@;
    set_field(&mut pc, "access", JsonValue::Text("public".to_owned()));
    set_field(&mut pc, "provenance", JsonValue::Bool(true));
    let ghost pc_view = pc@;
    match found {
        Some(at) => {
            let entry = ("publishConfig".to_owned(), JsonValue::Object(pc));
            fields.insert(at, entry);
            proof {
                assert(fields@ =~= given.update(at as int, entry));
                assert forall|q: Seq<char>| #[trigger] json_field(given.update(at as int, entry), q) == if q == "publishConfig"@ {
                    Some(entry.1)
                } else {
                    json_field(given, q)
                } by {
                    lemma_field_update(given, at as int, entry, q);
                }
            }
        },
        None => {
            set_field(&mut fields, "publishConfig", JsonValue::Object(pc));
        },
    }
    let ghost after_publish = fields@;
    set_field(&mut fields, "version", JsonValue::Text(version.to_owned()));
    let ghost after_version = fields@;
    proof {
        reveal_strlit("publishConfig");
        reveal_strlit("version");
        reveal_strlit("optionalDependencies");
        assert("publishConfig"@.len() == 13);
        assert("version"@.len() == 7);
    }
    assert("publishConfig"@ != "version"@);
    assert("publishConfig"@ != "optionalDependencies"@);
    assert(json_field(after_version, "publishConfig"@) == json_field(after_publish, "publishConfig"@));
    let mut deps: Vec<(String, JsonValue)> = Vec::new();
    let mut k: usize = 0;
    while k < platform_fields.len()
        invariant
            k <= platform_fields@.len(),
            deps@.len() == k,
            forall|j: int| 0 <= j < k ==> (#[trigger] deps@[j]).0@ == "jj-navi-"@ + platform_fields@[j].0@
                && json_text(Some(deps@[j].1)) == Some(version@),
        decreases platform_fields@.len() - k,
    {
        let mut name = String::new();
        name.append("jj-navi-");
        name.append(platform_fields[k].0.as_str());
        deps.push((name, JsonValue::Text(version.to_owned())));
        k += 1;
    }
    let ghost deps_view = deps@;
    set_field(&mut fields, "optionalDependencies", JsonValue::Object(deps));
    proof {
        reveal_strlit("access");
        reveal_strlit("provenance");
        assert("access"@.len() == 6);
        assert("provenance"@.len() == 10);
        assert("access"@ != "provenance"@);
        assert("version"@ != "optionalDependencies"@);
        assert(json_field(fields@, "publishConfig"@) == json_field(after_publish, "publishConfig"@));
        assert(json_field(after_publish, "publishConfig"@) matches Some(JsonValue::Object(x)) && x@ == pc_view);
        assert(json_field(fields@, "version"@) == json_field(after_version, "version"@));
        assert(json_field(after_version, "version"@) matches Some(JsonValue::Text(t)) && t@ == version@);
        assert(json_field(fields@, "optionalDependencies"@) matches Some(JsonValue::Object(x)) && x@ == deps_view);
        assert(platforms_dependencies(deps_view, platform_fields@, version@));
        assert(json_text(json_field(pc_view, "access"@)) == Some("public"@));
        assert(json_bool(json_field(pc_view, "provenance"@)) == Some(true));
        assert(publishing_set(pc_view, json_fields(json_field(given, "publishConfig"@))));
        assert forall|q: Seq<char>| !synced_package_key(q) implies #[trigger] json_field(fields@, q) == json_field(given, q) by {
            assert(json_field(fields@, q) == json_field(after_version, q));
            assert(json_field(after_version, q) == json_field(after_publish, q));
        }
    }
    Ok(JsonValue::Object(fields))
}

/// What `toml_edit` reads from a manifest text: `None` when the text is not
/// a TOML document, else the `version` string of its `package` table, if it
/// has one.
pub uninterp spec fn manifest_version_field(text: Seq<char>) -> Option<Option<Seq<char>>>;

/// The message of `toml_edit::TomlError` for a text that is not a TOML
/// document.
pub uninterp spec fn toml_parse_error(text: Seq<char>) -> Seq<char>;

/// The manifest text that `toml_edit` writes after setting `version` in
/// the `package` table: `None` when the text is not a TOML document,
/// `Some(None)` when it has no `package` table.
pub uninterp spec fn manifest_with_version(text: Seq<char>, version: Seq<char>) -> Option<Option<Seq<char>>>;

/// Parses the text as a `toml_edit::DocumentMut` and reads the `version`
/// string of its `package` table (`Item::as_table_like`, `TableLike::get`,
/// `Item::as_str`). The result is the named reading; a parse error comes
/// back as its message.
#[verifier::external_body]
fn read_manifest_version(text: &str) -> (r: Result<Option<String>, String>)
    ensures
        match r {
            Ok(Some(v)) => manifest_version_field(text@) == Some(Some(v@)),
            Ok(None) => manifest_version_field(text@) == Some(None::<Seq<char>>),
            Err(m) => manifest_version_field(text@) is None && m@ == toml_parse_error(text@),
        },
{
    match text.parse::<toml_edit::DocumentMut>() {
        Ok(doc) => Ok(
            doc.get("package").and_then(toml_edit::Item::as_table_like).and_then(|t| t.get("version")).and_then(
                toml_edit::Item::as_str,
            ).map(|v| v.to_owned()),
        ),
        Err(e) => Err(e.to_string()),
    }
}

/// Parses the text as a `toml_edit::DocumentMut`, inserts `version` as the
/// `version` value of its `package` table (`TableLike::insert`), and
/// writes the document back (`Display`). The result is the named text;
/// `toml_edit` keeps the rest of the document as it was written, and the
/// written text reads back with that version.
#[verifier::external_body]
fn write_manifest_version(text: &str, version: &str) -> (r: Result<Option<String>, String>)
    ensures
        match r {
            Ok(Some(t)) => manifest_with_version(text@, version@) == Some(Some(t@)) && manifest_version_field(t@)
                == Some(Some(version@)),
            Ok(None) => manifest_with_version(text@, version@) == Some(None::<Seq<char>>),
            Err(m) => manifest_with_version(text@, version@) is None && m@ == toml_parse_error(text@),
        },
{
    match text.parse::<toml_edit::DocumentMut>() {
        Ok(mut doc) => match doc.get_mut("package").and_then(toml_edit::Item::as_table_like_mut) {
            Some(package) => {
                package.insert("version", toml_edit::value(version));
                Ok(Some(doc.to_string()))
            },
            None => Ok(None),
        },
        Err(e) => Err(e.to_string()),
    }
}

/// The project's Cargo manifest: where it is and its text.
#[derive(Debug)]
pub struct CargoManifest {
    /// The manifest file.
    pub path: String,
    /// The manifest text.
    pub text: String,
}

impl CargoManifest {
    /// The manifest text.
    pub open spec fn spec_text(&self) -> Seq<char> {
        self.text@
    }

    /// Read a manifest: its text must be a TOML document.
    pub fn load(path: &str, text: String) -> (r: Result<CargoManifest, ToolError>)
        ensures
            match manifest_version_field(text@) {
                Some(_) => r matches Ok(m) && m.path@ == path@ && m.spec_text() == text@,
                None => r matches Err(ToolError::Message(e)) && e@ == toml_parse_error(text@),
            },
    {
        match read_manifest_version(text.as_str()) {
            Ok(_) => Ok(CargoManifest { path: path.to_owned(), text }),
            Err(m) => Err(ToolError::Message(m)),
        }
    }

    /// The manifest text, to write back.
    pub fn text(&self) -> (r: &str)
        ensures
            r@ == self.spec_text(),
    {
        self.text.as_str()
    }

    /// The package version: the `package.version` string, which must be a
    /// semantic version.
    pub fn version(&self) -> (r: Result<SemVersion, ToolError>)
        ensures
            match manifest_version_field(self.spec_text()) {
                Some(Some(t)) => match semver_parse(t) {
                    Some(v) => r matches Ok(x) && x@ == v,
                    None => r matches Err(ToolError::Semver(m)) && m@ == semver_error(t),
                },
                Some(None) => r matches Err(ToolError::Message(m)) && m@ == "could not read Cargo.toml package version"@,
                None => r matches Err(ToolError::Message(m)) && m@ == toml_parse_error(self.spec_text()),
            },
    {
        match read_manifest_version(self.text.as_str()) {
            Ok(Some(t)) => parse_version(t.as_str()),
            Ok(None) => Err(ToolError::message("could not read Cargo.toml package version")),
            Err(m) => Err(ToolError::Message(m)),
        }
    }

    /// Set the package version, which must be a semantic version; the
    /// manifest must have a `package` table. The rest of the manifest is
    /// kept as written, and the version reads back as set.
    pub fn set_version(&mut self, version: &str) -> (r: Result<(), ToolError>)
        ensures
            final(self).path == old(self).path,
            semver_parse(version@) is None ==> (r matches Err(ToolError::Semver(m)) && m@ == semver_error(version@) && final(self).spec_text()
                == old(self).spec_text()),
            semver_parse(version@) is Some ==> match manifest_with_version(old(self).spec_text(), version@) {
                Some(Some(t)) => r is Ok && final(self).spec_text() == t && manifest_version_field(t) == Some(
                    Some(version@),
                ),
                Some(None) => r matches Err(ToolError::Message(m)) && m@ == "could not update Cargo.toml package version"@
                    && final(self).spec_text() == old(self).spec_text(),
                None => r matches Err(ToolError::Message(m)) && m@ == toml_parse_error(old(self).spec_text())
                    && final(self).spec_text() == old(self).spec_text(),
            },
    {
        match parse_version(version) {
            Ok(_) => {},
            Err(e) => return Err(e),
        }
        match write_manifest_version(self.text.as_str(), version) {
            Ok(Some(t)) => {
                self.text = t;
                Ok(())
            },
            Ok(None) => Err(ToolError::message("could not update Cargo.toml package version")),
            Err(m) => Err(ToolError::Message(m)),
        }
    }
}

/// What is wrong with a release input file, if anything: its schema, then
/// its pull requests, of which `release:none` ones are allowed.
pub open spec fn release_input_problem(input: ReleaseInput) -> Option<Seq<char>> {
    if input.schema != 1 {
        Some("release input schema mismatch: expected 1, got "@ + decimal(input.schema as nat))
    } else {
        pull_requests_problem(input.prs@, true)
    }
}

/// Whether a pull request's release label is user facing.
pub open spec fn user_facing_label() -> spec_fn(PullRequestMetadata) -> bool {
    |pr: PullRequestMetadata| pr.release != super::ReleaseLabel::NoRelease
}

/// Pull requests whose release label is user facing, in order.
pub open spec fn user_facing(prs: Seq<PullRequestMetadata>) -> Seq<PullRequestMetadata> {
    prs.filter(user_facing_label())
}

/// A release ready to be written: its version's text and the pull requests
/// its changelog section lists.
#[derive(Debug)]
pub struct PreparedVersion {
    /// The release version, as text.
    pub version: String,
    /// The user-facing pull requests, by merge time then number.
    pub included: Vec<PullRequestMetadata>,
}

/// Decide a release preparation: the requested version must parse, the
/// Cargo and npm versions must agree and lie below it, and the release
/// input must be valid and list a user-facing pull request. Each input is
/// what reading that file gave; a read error is handed on when its turn
/// comes.
pub fn run_prepare(
    version: &str,
    cargo_version: Result<SemVersion, ToolError>,
    package_version: Result<SemVersion, ToolError>,
    input: Result<ReleaseInput, ToolError>,
) -> (r: Result<PreparedVersion, ToolError>)
    ensures
        semver_parse(version@) is None ==> (r matches Err(ToolError::Semver(m)) && m@ == semver_error(version@)),
        semver_parse(version@) matches Some(v) ==> match cargo_version {
            Err(e) => r == Err::<PreparedVersion, ToolError>(e),
            Ok(cv) => match package_version {
                Err(e) => r == Err::<PreparedVersion, ToolError>(e),
                Ok(pv) => if cv@ != pv@ {
                    r matches Err(ToolError::Message(m)) && m@ == "version drift before release: Cargo="@ + version_text(cv@)
                        + ", npm="@ + version_text(pv@)
                } else if version_order(v, cv@) <= 0 {
                    r matches Err(ToolError::Message(m)) && m@ == "release version must be greater than current version "@
                        + version_text(cv@)
                } else {
                    match input {
                        Err(e) => r == Err::<PreparedVersion, ToolError>(e),
                        Ok(i) => match release_input_problem(i) {
                            Some(m) => r matches Err(ToolError::Message(x)) && x@ == m,
                            None => if user_facing(i.prs@).len() == 0 {
                                r matches Err(ToolError::Message(m)) && m@ == "release input has no user-facing PRs"@
                            } else {
                                r matches Ok(p) && p.version@ == version_text(v) && exists|s: Seq<PullRequestMetadata>|
                                    prs_sorted(s) && s.to_multiset() == i.prs@.to_multiset() && #[trigger] user_facing(s)
                                        == p.included@
                            },
                        },
                    }
                },
            },
        },
{
    let v = match parse_version(version) {
        Ok(v) => v,
        Err(e) => return Err(e),
    };
    let cv = match cargo_version {
        Ok(x) => x,
        Err(e) => return Err(e),
    };
    let pv = match package_version {
        Ok(x) => x,
        Err(e) => return Err(e),
    };
    if !same_version(&cv, &pv) {
        let mut m = message_with_version("version drift before release: Cargo=", &cv);
        m.append(", npm=");
        push_version(&mut m, &pv);
        return Err(ToolError::Message(m));
    }
    if compare_versions(&v, &cv) <= 0 {
        return Err(ToolError::Message(message_with_version("release version must be greater than current version ", &cv)));
    }
    let mut release_input = match input {
        Ok(i) => i,
        Err(e) => return Err(e),
    };
    match validate_release_input(&release_input) {
        Ok(()) => {},
        Err(e) => return Err(e),
    }
    let ghost given = release_input.prs@;
    sort_pull_requests(&mut release_input.prs);
    let sorted = release_input.prs;
    let mut included: Vec<PullRequestMetadata> = Vec::new();
    let mut i: usize = 0;
    assert(sorted@.take(0) =~= Seq::<PullRequestMetadata>::empty());
    while i < sorted.len()
        invariant
            i <= sorted@.len(),
            included@ == user_facing(sorted@.take(i as int)),
        decreases sorted@.len() - i,
    {
        let pr = sorted[i].clone();
        proof {
            assert(sorted@.take(i + 1) =~= sorted@.take(i as int).push(sorted@[i as int]));
            sorted@.take(i as int).lemma_filter_push(sorted@[i as int], user_facing_label());
        }
        if pr.release.is_user_facing() {
            included.push(pr);
        }
        i += 1;
    }
    assert(sorted@.take(i as int) =~= sorted@);
    proof {
        if user_facing(given).len() == 0 && user_facing(sorted@).len() != 0 {
            lemma_user_facing_permutation(sorted@, given);
        }
        if user_facing(given).len() != 0 && user_facing(sorted@).len() == 0 {
            lemma_user_facing_permutation(given, sorted@);
        }
    }
    if included.len() == 0 {
        return Err(ToolError::message("release input has no user-facing PRs"));
    }
    let text = message_with_version("", &v);
    proof {
        reveal_strlit("");
        assert(text@ =~= version_text(v@));
    }
    Ok(PreparedVersion { version: text, included })
}

/// A permutation keeps a user-facing pull request.
proof fn lemma_user_facing_permutation(a: Seq<PullRequestMetadata>, b: Seq<PullRequestMetadata>)
    requires
        a.to_multiset() == b.to_multiset(),
        user_facing(a).len() != 0,
    ensures
        user_facing(b).len() != 0,
{
    broadcast use vstd::seq_lib::group_filter_ensures;

    let x = user_facing(a)[0];
    assert(user_facing(a).contains(x));
    a.lemma_filter_contains_rev(user_facing_label(), x);
    assert(a.contains(x));
    a.to_multiset_ensures();
    b.to_multiset_ensures();
    assert(a.to_multiset().count(x) > 0);
    assert(b.to_multiset().count(x) > 0);
    assert(b.contains(x));
    let j = choose|j: int| 0 <= j < b.len() && b[j] == x;
    assert(user_facing_label()(x));
    b.lemma_filter_contains(user_facing_label(), j);
    assert(user_facing(b).contains(b[j]));
}


proof fn lemma_field_found(f: Seq<(String, JsonValue)>, key: Seq<char>, k: int, version: Seq<char>)
    requires
        0 <= k < f.len(),
        f[k].0@ == key,
        forall|j: int| 0 <= j < f.len() ==> json_text(Some(#[trigger] f[j].1)) == Some(version),
    ensures
        json_text(json_field(f, key)) == Some(version),
    decreases k,
{
    if f[0].0@ != key {
        assert forall|j: int| 0 <= j < f.drop_first().len() implies json_text(Some(#[trigger] f.drop_first()[j].1))
            == Some(version) by {
            assert(f.drop_first()[j] == f[j + 1]);
        }
        lemma_field_found(f.drop_first(), key, k - 1, version);
    }
}

proof fn lemma_no_platform_problem(deps: Seq<(String, JsonValue)>, platforms: Seq<(String, JsonValue)>, version: Seq<char>)
    requires
        forall|k: int| 0 <= k < platforms.len() ==> json_text(json_field(deps, "jj-navi-"@ + (#[trigger] platforms[k]).0@))
            == Some(version),
    ensures
        platform_problem(deps, platforms, version) is None,
    decreases platforms.len(),
{
    if platforms.len() > 0 {
        assert(json_text(json_field(deps, "jj-navi-"@ + platforms[0].0@)) == Some(version));
        assert forall|k: int| 0 <= k < platforms.drop_first().len() implies json_text(
            json_field(deps, "jj-navi-"@ + (#[trigger] platforms.drop_first()[k]).0@),
        ) == Some(version) by {
            assert(platforms.drop_first()[k] == platforms[k + 1]);
        }
        lemma_no_platform_problem(deps, platforms.drop_first(), version);
    }
}

/// A package that syncing wrote at a version passes the package checks
/// for that version: every platform has its dependency at the version,
/// and publishing is public with provenance.
pub proof fn lemma_synced_package_passes(package: JsonValue, platforms: JsonValue, version: Seq<char>, synced: JsonValue)
    requires
        synced_package(package, platforms, version, synced),
    ensures
        synced is Object,
        json_text(json_get(synced, "version"@)) == Some(version),
        package_check(synced, Ok(platforms), version) == CheckOutcome::Pass,
{
    let deps = json_fields(json_get(synced, "optionalDependencies"@))->0;
    let pf = json_fields(Some(platforms))->0;
    assert forall|k: int| 0 <= k < deps.len() implies json_text(Some(#[trigger] deps[k].1)) == Some(version) by {}
    assert forall|k: int| 0 <= k < pf.len() implies json_text(json_field(deps, "jj-navi-"@ + (#[trigger] pf[k]).0@))
        == Some(version) by {
        lemma_field_found(deps, "jj-navi-"@ + pf[k].0@, k, version);
    }
    lemma_no_platform_problem(deps, pf, version);
    match synced {
        JsonValue::Object(fields) => {},
        _ => {
            assert(json_get(synced, "version"@) is None);
        },
    }
}

/// The README that syncing writes carries the install line that the
/// version check looks for.
pub proof fn lemma_synced_readme_passes(readme: Seq<char>, version: Seq<char>, synced: Seq<char>)
    requires
        readme_with_version(readme, version) == Some(synced),
    ensures
        contains_seq(synced, install_line_prefix() + version),
{
    let start = first_occurrence(readme, install_line_prefix(), 0)->0;
    crate::text::lemma_first_occurrence(readme, install_line_prefix(), 0);
    let line = install_line_prefix() + version;
    assert(synced.subrange(start, start + line.len()) =~= line);
    assert(crate::text::occurs_at(synced, line, start));
}

/// Syncing the release files to a version and then checking them at that
/// version passes: the manifest reads back the version, the npm package
/// carries it with its platform dependencies and public publishing, and
/// both READMEs carry its install line. The version is one that parsing
/// gave, which prints back as its text.
pub proof fn lemma_sync_then_check_passes(
    version: Seq<char>,
    v: (u64, u64, u64, Seq<char>, Seq<char>),
    synced_manifest: Seq<char>,
    readme: Seq<char>,
    synced_readme: Seq<char>,
    package: JsonValue,
    platforms: JsonValue,
    synced: JsonValue,
)
    requires
        semver_parse(version) == Some(v),
        version_text(v) == version,
        manifest_version_field(synced_manifest) == Some(Some(version)),
        readme_with_version(readme, version) == Some(synced_readme),
        synced_package(package, platforms, version, synced),
    ensures
        match manifest_version_field(synced_manifest) {
            Some(Some(t)) => semver_parse(t) == Some(v),
            _ => false,
        },
        versions_check(v, Ok(v), Ok(synced), Ok(synced_readme), Ok(synced_readme), Ok(platforms))
            == CheckOutcome::Pass,
{
    lemma_synced_package_passes(package, platforms, version, synced);
    lemma_synced_readme_passes(readme, version, synced_readme);
    assert(package_version_of(synced) == Ok::<(u64, u64, u64, Seq<char>, Seq<char>), CheckOutcome>(v));
}

} // verus!
