//! Semantic versions: parsing and comparison through the `semver` crate,
//! and the rules that tie a version bump to release labels.

use vstd::prelude::*;

use super::error::ToolError;
use super::github::ReleaseKind;
use crate::text::{decimal, push_decimal, str_equal};

verus! {

/// A semantic version, with its pre-release and build identifiers as text
/// (empty when absent).
#[derive(Debug, PartialEq, Eq)]
pub struct SemVersion {
    /// Major number.
    pub major: u64,
    /// Minor number.
    pub minor: u64,
    /// Patch number.
    pub patch: u64,
    /// Pre-release identifiers.
    pub pre: String,
    /// Build metadata.
    pub build: String,
}

impl View for SemVersion {
    type V = (u64, u64, u64, Seq<char>, Seq<char>);

    open spec fn view(&self) -> Self::V {
        (self.major, self.minor, self.patch, self.pre@, self.build@)
    }
}

impl Clone for SemVersion {
    fn clone(&self) -> (r: Self)
        ensures
            r == *self,
    {
        SemVersion {
            major: self.major,
            minor: self.minor,
            patch: self.patch,
            pre: self.pre.clone(),
            build: self.build.clone(),
        }
    }
}

/// What `semver::Version::parse` gives for a text: the version's parts, or
/// the message of its error.
pub uninterp spec fn semver_outcome(text: Seq<char>) -> Result<(u64, u64, u64, Seq<char>, Seq<char>), Seq<char>>;

/// The version `semver::Version::parse` reads from a text, if the text is a
/// semantic version.
pub open spec fn semver_parse(text: Seq<char>) -> Option<(u64, u64, u64, Seq<char>, Seq<char>)> {
    match semver_outcome(text) {
        Ok(v) => Some(v),
        Err(_) => None,
    }
}

/// The message of `semver::Version::parse`'s error for a text that is not a
/// semantic version.
pub open spec fn semver_error(text: Seq<char>) -> Seq<char> {
    match semver_outcome(text) {
        Ok(_) => Seq::empty(),
        Err(m) => m,
    }
}

/// How `semver::Prerelease` orders two pre-release texts: negative, zero or
/// positive.
pub uninterp spec fn prerelease_order(a: Seq<char>, b: Seq<char>) -> int;

/// How `semver::BuildMetadata` orders two build texts: negative, zero or
/// positive.
pub uninterp spec fn build_order(a: Seq<char>, b: Seq<char>) -> int;

/// Calls `semver::Version::parse`; the version's parts come back as plain
/// values, an error as its message. The result is the named outcome of the
/// text; what the grammar accepts, and the wording of its errors, are not
/// restated here. A version that parses prints back as its text: the
/// parser takes numbers without leading zeros and keeps the pre-release
/// and build texts as written, which `Display` writes out again.
#[verifier::external_body]
fn semver_parse_text(text: &str) -> (r: Result<SemVersion, String>)
    ensures
        match r {
            Ok(v) => semver_outcome(text@) == Ok::<(u64, u64, u64, Seq<char>, Seq<char>), Seq<char>>(v@)
                && version_text(v@) == text@,
            Err(m) => semver_outcome(text@) == Err::<(u64, u64, u64, Seq<char>, Seq<char>), Seq<char>>(m@),
        },
{
    match semver::Version::parse(text) {
        Ok(v) => Ok(
            SemVersion {
                major: v.major,
                minor: v.minor,
                patch: v.patch,
                pre: v.pre.as_str().to_owned(),
                build: v.build.as_str().to_owned(),
            },
        ),
        Err(e) => Err(e.to_string()),
    }
}

/// Calls `Ord::cmp` on two `semver::Prerelease` values built with
/// `Prerelease::new`; the result is the named order. Texts that do not
/// build compare equal here, and no fact about the order is stated.
#[verifier::external_body]
fn compare_prerelease(a: &str, b: &str) -> (r: i8)
    ensures
        r == prerelease_order(a@, b@),
{
    match (semver::Prerelease::new(a), semver::Prerelease::new(b)) {
        (Ok(x), Ok(y)) => match x.cmp(&y) {
            std::cmp::Ordering::Less => -1,
            std::cmp::Ordering::Equal => 0,
            std::cmp::Ordering::Greater => 1,
        },
        _ => 0,
    }
}

/// Calls `Ord::cmp` on two `semver::BuildMetadata` values built with
/// `BuildMetadata::new`; the result is the named order. Texts that do not
/// build compare equal here, and no fact about the order is stated.
#[verifier::external_body]
fn compare_build(a: &str, b: &str) -> (r: i8)
    ensures
        r == build_order(a@, b@),
{
    match (semver::BuildMetadata::new(a), semver::BuildMetadata::new(b)) {
        (Ok(x), Ok(y)) => match x.cmp(&y) {
            std::cmp::Ordering::Less => -1,
            std::cmp::Ordering::Equal => 0,
            std::cmp::Ordering::Greater => 1,
        },
        _ => 0,
    }
}

/// The version parsed from `text`, or the parser's message.
pub fn parse_version(text: &str) -> (r: Result<SemVersion, ToolError>)
    ensures
        match r {
            Ok(v) => semver_parse(text@) == Some(v@) && version_text(v@) == text@,
            Err(e) => semver_parse(text@) is None && (e matches ToolError::Semver(m) && m@ == semver_error(text@)),
        },
{
    match semver_parse_text(text) {
        Ok(v) => Ok(v),
        Err(m) => Err(ToolError::Semver(m)),
    }
}

/// How two numbers compare: negative, zero or positive.
pub open spec fn number_order(a: u64, b: u64) -> int {
    if a < b {
        -1
    } else if a > b {
        1
    } else {
        0
    }
}

/// Version precedence as `semver::Version` orders versions: major, minor,
/// patch, then pre-release, then build metadata.
pub open spec fn version_order(a: (u64, u64, u64, Seq<char>, Seq<char>), b: (u64, u64, u64, Seq<char>, Seq<char>)) -> int {
    if number_order(a.0, b.0) != 0 {
        number_order(a.0, b.0)
    } else if number_order(a.1, b.1) != 0 {
        number_order(a.1, b.1)
    } else if number_order(a.2, b.2) != 0 {
        number_order(a.2, b.2)
    } else if prerelease_order(a.3, b.3) != 0 {
        prerelease_order(a.3, b.3)
    } else {
        build_order(a.4, b.4)
    }
}

/// Compare two versions by precedence.
pub fn compare_versions(a: &SemVersion, b: &SemVersion) -> (r: i8)
    ensures
        r == version_order(a@, b@),
{
    if a.major != b.major {
        return if a.major < b.major { -1 } else { 1 };
    }
    if a.minor != b.minor {
        return if a.minor < b.minor { -1 } else { 1 };
    }
    if a.patch != b.patch {
        return if a.patch < b.patch { -1 } else { 1 };
    }
    let p = compare_prerelease(a.pre.as_str(), b.pre.as_str());
    if p != 0 {
        return p;
    }
    compare_build(a.build.as_str(), b.build.as_str())
}

/// The text of a version: `major.minor.patch`, then `-pre` and `+build`
/// when present.
pub open spec fn version_text(v: (u64, u64, u64, Seq<char>, Seq<char>)) -> Seq<char> {
    decimal(v.0 as nat) + "."@ + decimal(v.1 as nat) + "."@ + decimal(v.2 as nat) + (if v.3.len() == 0 {
        Seq::empty()
    } else {
        "-"@ + v.3
    }) + (if v.4.len() == 0 {
        Seq::empty()
    } else {
        "+"@ + v.4
    })
}

/// Append the text of a version.
pub fn push_version(out: &mut String, v: &SemVersion)
    ensures
        final(out)@ == old(out)@ + version_text(v@),
{
    push_decimal(out, v.major);
    out.append(".");
    push_decimal(out, v.minor);
    out.append(".");
    push_decimal(out, v.patch);
    if v.pre.as_str().unicode_len() != 0 {
        out.append("-");
        out.append(v.pre.as_str());
    }
    if v.build.as_str().unicode_len() != 0 {
        out.append("+");
        out.append(v.build.as_str());
    }
    assert(out@ =~= old(out)@ + version_text(v@));
}

/// The kind of bump from one version to another.
pub open spec fn version_change(current: (u64, u64, u64, Seq<char>, Seq<char>), target: (u64, u64, u64, Seq<char>, Seq<char>)) -> ReleaseKind {
    if target.0 != current.0 {
        ReleaseKind::Major
    } else if target.1 != current.1 {
        ReleaseKind::Minor
    } else if target.2 != current.2 || target.3 != current.3 || target.4 != current.4 {
        ReleaseKind::Patch
    } else {
        ReleaseKind::NoRelease
    }
}

/// The kind of bump from `current` to `target`: the first of major, minor
/// and the rest that differs.
pub fn classify_version_change(current: &SemVersion, target: &SemVersion) -> (r: ReleaseKind)
    ensures
        r == version_change(current@, target@),
{
    if target.major != current.major {
        ReleaseKind::Major
    } else if target.minor != current.minor {
        ReleaseKind::Minor
    } else if target.patch != current.patch || !str_equal(target.pre.as_str(), current.pre.as_str())
        || !str_equal(target.build.as_str(), current.build.as_str()) {
        ReleaseKind::Patch
    } else {
        ReleaseKind::NoRelease
    }
}

/// Whether bumping `current` as `required` asks stays within `u64`.
pub open spec fn bump_fits(current: (u64, u64, u64, Seq<char>, Seq<char>), required: ReleaseKind) -> bool {
    match required {
        ReleaseKind::Patch => current.2 < u64::MAX,
        ReleaseKind::Minor => current.1 < u64::MAX,
        ReleaseKind::Major => current.0 < u64::MAX,
        ReleaseKind::NoRelease => true,
    }
}

/// The version that a `required` bump of `current` gives, without
/// pre-release or build identifiers.
pub open spec fn suggested(current: (u64, u64, u64, Seq<char>, Seq<char>), required: ReleaseKind) -> (u64, u64, u64, Seq<char>, Seq<char>) {
    match required {
        ReleaseKind::NoRelease => (current.0, current.1, current.2, Seq::empty(), Seq::empty()),
        ReleaseKind::Patch => (current.0, current.1, (current.2 + 1) as u64, Seq::empty(), Seq::empty()),
        ReleaseKind::Minor => (current.0, (current.1 + 1) as u64, 0, Seq::empty(), Seq::empty()),
        ReleaseKind::Major => ((current.0 + 1) as u64, 0, 0, Seq::empty(), Seq::empty()),
    }
}

/// The next version for a `required` bump of `current`.
pub fn suggested_version(current: &SemVersion, required: ReleaseKind) -> (r: SemVersion)
    requires
        bump_fits(current@, required),
    ensures
        r@ == suggested(current@, required),
        required is Major ==> r.major == current.major + 1 && r.minor == 0 && r.patch == 0,
        required is Minor ==> r.major == current.major && r.minor == current.minor + 1 && r.patch == 0,
        required is Patch ==> r.major == current.major && r.minor == current.minor && r.patch == current.patch + 1,
        required is NoRelease ==> r.major == current.major && r.minor == current.minor && r.patch == current.patch,
        r.pre@.len() == 0 && r.build@.len() == 0,
{
    let mut next = SemVersion {
        major: current.major,
        minor: current.minor,
        patch: current.patch,
        pre: String::new(),
        build: String::new(),
    };
    match required {
        ReleaseKind::NoRelease => {},
        ReleaseKind::Patch => {
            next.patch = next.patch + 1;
        },
        ReleaseKind::Minor => {
            next.minor = next.minor + 1;
            next.patch = 0;
        },
        ReleaseKind::Major => {
            next.major = next.major + 1;
            next.minor = 0;
            next.patch = 0;
        },
    }
    next
}

/// Why `target` does not fit a release that asks for `required`, if it does
/// not.
pub open spec fn version_mismatch(
    current: (u64, u64, u64, Seq<char>, Seq<char>),
    target: (u64, u64, u64, Seq<char>, Seq<char>),
    required: ReleaseKind,
) -> Option<Seq<char>> {
    if version_order(target, current) <= 0 {
        Some("release version must be greater than current version "@ + version_text(current))
    } else if version_change(current, target) != required {
        Some(
            "requested version "@ + version_text(target) + " is a "@ + version_change(
                current,
                target,
            ).spec_name() + " bump from "@ + version_text(current) + ", but included PRs require "@
                + required.spec_name() + ". suggested: "@ + version_text(suggested(current, required)),
        )
    } else {
        None
    }
}

/// The suggested version is the first of its kind: a major bump resets
/// the minor and patch numbers to zero, a minor bump resets the patch
/// number, a patch bump adds one to it, and no bump keeps the numbers; the
/// suggestion is never a pre-release and carries no build metadata.
pub proof fn lemma_suggested_resets(current: (u64, u64, u64, Seq<char>, Seq<char>), required: ReleaseKind)
    requires
        bump_fits(current, required),
    ensures
        required is Major ==> suggested(current, required).0 == current.0 + 1 && suggested(current, required).1 == 0
            && suggested(current, required).2 == 0,
        required is Minor ==> suggested(current, required).0 == current.0 && suggested(current, required).1
            == current.1 + 1 && suggested(current, required).2 == 0,
        required is Patch ==> suggested(current, required).0 == current.0 && suggested(current, required).1
            == current.1 && suggested(current, required).2 == current.2 + 1,
        required is NoRelease ==> suggested(current, required).0 == current.0 && suggested(current, required).1
            == current.1 && suggested(current, required).2 == current.2,
        suggested(current, required).3.len() == 0 && suggested(current, required).4.len() == 0,
{
}

/// The version that a refused release suggests is accepted for the same
/// release: a bump of the kind asked for, above the current version.
pub proof fn lemma_suggested_version_accepted(current: (u64, u64, u64, Seq<char>, Seq<char>), required: ReleaseKind)
    requires
        required != ReleaseKind::NoRelease,
        bump_fits(current, required),
    ensures
        version_change(current, suggested(current, required)) == required,
        version_order(suggested(current, required), current) > 0,
        version_mismatch(current, suggested(current, required), required) is None,
{
}

/// Check that `target` is above `current` and that the bump is of the kind
/// the release asks for; the error suggests the right version.
pub fn ensure_version_matches_release(current: &SemVersion, target: &SemVersion, required: ReleaseKind) -> (r: Result<(), ToolError>)
    requires
        version_change(current@, target@) != required ==> bump_fits(current@, required),
    ensures
        match version_mismatch(current@, target@, required) {
            None => r is Ok,
            Some(m) => r matches Err(ToolError::Message(e)) && e@ == m,
        },
{
    if compare_versions(target, current) <= 0 {
        let mut m = String::new();
        m.append("release version must be greater than current version ");
        push_version(&mut m, current);
        return Err(ToolError::Message(m));
    }
    let actual = classify_version_change(current, target);
    if actual != required {
        let next = suggested_version(current, required);
        let mut m = String::new();
        m.append("requested version ");
        push_version(&mut m, target);
        m.append(" is a ");
        m.append(actual.as_str());
        m.append(" bump from ");
        push_version(&mut m, current);
        m.append(", but included PRs require ");
        m.append(required.as_str());
        m.append(". suggested: ");
        push_version(&mut m, &next);
        return Err(ToolError::Message(m));
    }
    Ok(())
}

} // verus!
