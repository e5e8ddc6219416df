//! Release labels of GitHub pull requests, and the texts of a release pull
//! request.

use vstd::prelude::*;
use vstd::seq_lib::*;
use vstd::string::*;

use super::error::ToolError;
use crate::doctor::{chars_order, compare_strings, lemma_chars_order};
use crate::text::{
    contains_seq, contains_str, decimal, join_parts, join_strings, push_decimal, str_equal, trim,
    trim_ws, views_of,
};

verus! {

/// The label that marks a breaking change.
pub const RELEASE_MAJOR_LABEL: &'static str = "release:major";

/// The label that marks a new feature.
pub const RELEASE_MINOR_LABEL: &'static str = "release:minor";

/// The label that marks a fix.
pub const RELEASE_PATCH_LABEL: &'static str = "release:patch";

/// The label that keeps a change out of the changelog.
pub const RELEASE_NONE_LABEL: &'static str = "release:none";

/// The marker that the body of a generated release pull request holds.
pub const RELEASE_PR_MARKER: &'static str = "<!-- navi-release:release-pr -->";

/// Kind of release a pull request asks for, in increasing order.
#[derive(Debug, Clone, Copy, PartialEq, Eq, Structural)]
pub enum ReleaseKind {
    /// No release.
    NoRelease,
    /// Patch release.
    Patch,
    /// Minor release.
    Minor,
    /// Major release.
    Major,
}

impl ReleaseKind {
    /// Position in the release order.
    pub open spec fn rank(self) -> int {
        match self {
            ReleaseKind::NoRelease => 0,
            ReleaseKind::Patch => 1,
            ReleaseKind::Minor => 2,
            ReleaseKind::Major => 3,
        }
    }

    /// The kind a label names.
    pub open spec fn spec_from_label(label: Seq<char>) -> Option<ReleaseKind> {
        if label == "release:none"@ {
            Some(ReleaseKind::NoRelease)
        } else if label == "release:patch"@ {
            Some(ReleaseKind::Patch)
        } else if label == "release:minor"@ {
            Some(ReleaseKind::Minor)
        } else if label == "release:major"@ {
            Some(ReleaseKind::Major)
        } else {
            None
        }
    }

    /// The lowercase name.
    pub open spec fn spec_name(self) -> Seq<char> {
        match self {
            ReleaseKind::NoRelease => "none"@,
            ReleaseKind::Patch => "patch"@,
            ReleaseKind::Minor => "minor"@,
            ReleaseKind::Major => "major"@,
        }
    }

    /// The kind a label names, if it names one.
    pub fn from_label(label: &str) -> (r: Option<ReleaseKind>)
        ensures
            r == ReleaseKind::spec_from_label(label@),
    {
        if str_equal(label, RELEASE_NONE_LABEL) {
            Some(ReleaseKind::NoRelease)
        } else if str_equal(label, RELEASE_PATCH_LABEL) {
            Some(ReleaseKind::Patch)
        } else if str_equal(label, RELEASE_MINOR_LABEL) {
            Some(ReleaseKind::Minor)
        } else if str_equal(label, RELEASE_MAJOR_LABEL) {
            Some(ReleaseKind::Major)
        } else {
            None
        }
    }

    /// The lowercase name.
    pub fn as_str(self) -> (r: &'static str)
        ensures
            r@ == self.spec_name(),
    {
        match self {
            ReleaseKind::NoRelease => "none",
            ReleaseKind::Patch => "patch",
            ReleaseKind::Minor => "minor",
            ReleaseKind::Major => "major",
        }
    }

    /// Whether `self` comes after `other` in the release order.
    pub fn is_above(self, other: ReleaseKind) -> (r: bool)
        ensures
            r == (self.rank() > other.rank()),
    {
        let a: u8 = match self {
            ReleaseKind::NoRelease => 0,
            ReleaseKind::Patch => 1,
            ReleaseKind::Minor => 2,
            ReleaseKind::Major => 3,
        };
        let b: u8 = match other {
            ReleaseKind::NoRelease => 0,
            ReleaseKind::Patch => 1,
            ReleaseKind::Minor => 2,
            ReleaseKind::Major => 3,
        };
        a > b
    }
}

/// A label of a GitHub pull request.
#[derive(Debug, PartialEq, Eq)]
pub struct GithubLabel {
    /// Label name.
    pub name: String,
}

/// The release kinds named by `labels`, in order.
pub open spec fn release_kinds(labels: Seq<GithubLabel>) -> Seq<ReleaseKind>
    decreases labels.len(),
{
    if labels.len() == 0 {
        Seq::empty()
    } else {
        release_kinds(labels.drop_last()) + match ReleaseKind::spec_from_label(labels.last().name@) {
            Some(k) => seq![k],
            None => Seq::empty(),
        }
    }
}

/// The message for a pull request whose title is blank.
pub open spec fn empty_title_message(number: u64) -> Seq<char> {
    "PR #"@ + decimal(number as nat) + " title is empty"@
}

/// The message for a pull request without exactly one release label.
pub open spec fn label_count_message(number: u64) -> Seq<char> {
    "PR #"@ + decimal(number as nat)
        + " must have exactly one release label: release:major, release:minor, release:patch, or release:none"@
}

/// The release kind of a pull request, or why it has none.
pub open spec fn release_label_outcome(number: u64, title: Seq<char>, labels: Seq<GithubLabel>) -> Result<ReleaseKind, Seq<char>> {
    if trim_ws(title).len() == 0 {
        Err(empty_title_message(number))
    } else if release_kinds(labels).len() != 1 {
        Err(label_count_message(number))
    } else {
        Ok(release_kinds(labels)[0])
    }
}

/// Whether a result agrees with an outcome.
pub open spec fn matches_outcome(r: Result<ReleaseKind, ToolError>, o: Result<ReleaseKind, Seq<char>>) -> bool {
    match o {
        Ok(k) => r == Ok::<ReleaseKind, ToolError>(k),
        Err(m) => r matches Err(ToolError::Message(e)) && e@ == m,
    }
}

/// The release kind of a pull request: its title must not be blank and
/// exactly one of its labels must be a release label.
pub fn parse_release_label(number: u64, title: &str, labels: &[GithubLabel]) -> (r: Result<ReleaseKind, ToolError>)
    ensures
        matches_outcome(r, release_label_outcome(number, title@, labels@)),
{
    let trimmed = trim(title);
    if trimmed.as_str().unicode_len() == 0 {
        let mut m = String::new();
        m.append("PR #");
        push_decimal(&mut m, number);
        m.append(" title is empty");
        return Err(ToolError::Message(m));
    }
    let mut kinds: Vec<ReleaseKind> = Vec::new();
    let mut i: usize = 0;
    assert(labels@.take(0) =~= Seq::<GithubLabel>::empty());
    while i < labels.len()
        invariant
            i <= labels@.len(),
            kinds@ == release_kinds(labels@.take(i as int)),
        decreases labels@.len() - i,
    {
        assert(labels@.take(i + 1).drop_last() =~= labels@.take(i as int));
        match ReleaseKind::from_label(labels[i].name.as_str()) {
            Some(k) => kinds.push(k),
            None => {},
        }
        i += 1;
        assert(kinds@ =~= release_kinds(labels@.take(i as int)));
    }
    assert(labels@.take(i as int) =~= labels@);
    if kinds.len() != 1 {
        let mut m = String::new();
        m.append("PR #");
        push_decimal(&mut m, number);
        m.append(
            " must have exactly one release label: release:major, release:minor, release:patch, or release:none",
        );
        return Err(ToolError::Message(m));
    }
    Ok(kinds[0])
}

/// Whether a pull request body marks a generated release pull request.
pub fn is_generated_release_pr(body: Option<&str>) -> (r: bool)
    ensures
        r == match body {
            Some(b) => contains_seq(b@, RELEASE_PR_MARKER@),
            None => false,
        },
{
    match body {
        Some(b) => contains_str(b, RELEASE_PR_MARKER),
        None => false,
    }
}

/// A pull request that goes into a release.
#[derive(Debug, PartialEq, Eq)]
pub struct ReleasePullRequest {
    /// Number.
    pub number: u64,
    /// Title.
    pub title: String,
    /// Web address.
    pub url: String,
    /// Name shown for the author.
    pub author_display: String,
    /// Release kind.
    pub release: ReleaseKind,
    /// Merge time.
    pub merged_at: String,
}

impl Clone for ReleasePullRequest {
    fn clone(&self) -> (r: Self)
        ensures
            r == *self,
    {
        ReleasePullRequest {
            number: self.number,
            title: self.title.clone(),
            url: self.url.clone(),
            author_display: self.author_display.clone(),
            release: self.release,
            merged_at: self.merged_at.clone(),
        }
    }
}

/// A merged pull request left out of a release.
#[derive(Debug, PartialEq, Eq)]
pub struct SkippedPullRequest {
    /// Number.
    pub number: u64,
    /// Title.
    pub title: String,
    /// Web address.
    pub url: String,
    /// Name shown for the author.
    pub author_display: String,
}

/// The pull requests of a release being prepared.
#[derive(Debug, PartialEq, Eq)]
pub struct PreparedRelease {
    /// Tag of the previous release, if any.
    pub base_tag: Option<String>,
    /// Pull requests that go into the release.
    pub included_prs: Vec<ReleasePullRequest>,
    /// Pull requests marked `release:none`.
    pub skipped_prs: Vec<SkippedPullRequest>,
    /// Highest release kind among the included pull requests.
    pub highest_release: ReleaseKind,
}

/// The changelog line of a release pull request.
pub open spec fn release_entry_line(pr: ReleasePullRequest) -> Seq<char> {
    "- "@ + pr.title@ + " ([#"@ + decimal(pr.number as nat) + "]("@ + pr.url@ + "), "@
        + pr.author_display@ + ")"@
}

/// The changelog section of a release built from release pull requests.
pub open spec fn release_section_text(version: Seq<char>, date: Seq<char>, prs: Seq<ReleasePullRequest>) -> Seq<char> {
    join_parts(
        seq!["## v"@ + version + " - "@ + date, ""@] + prs.map_values(|pr: ReleasePullRequest| release_entry_line(pr)),
        "\n"@,
    ) + "\n"@
}

fn push_line(lines: &mut Vec<String>, line: String)
    ensures
        views_of(final(lines)@) == views_of(old(lines)@).push(line@),
{
    lines.push(line);
    assert(views_of(lines@) =~= views_of(old(lines)@).push(line@));
}

/// The changelog section of a release, one line per pull request with a link
/// to it and its author.
pub fn render_changelog_section(version: &str, date: &str, prs: &[ReleasePullRequest]) -> (r: String)
    ensures
        r@ == release_section_text(version@, date@, prs@),
{
    proof {
        reveal_strlit("");
    }
    let mut lines: Vec<String> = Vec::new();
    assert(views_of(lines@) =~= Seq::<Seq<char>>::empty());
    let mut head = String::new();
    head.append("## v");
    head.append(version);
    head.append(" - ");
    head.append(date);
    assert(head@ =~= "## v"@ + version@ + " - "@ + date@);
    push_line(&mut lines, head);
    push_line(&mut lines, String::new());
    let ghost start = views_of(lines@);
    assert(start[0] == "## v"@ + version@ + " - "@ + date@);
    assert(start[1] =~= ""@);
    assert(start =~= seq!["## v"@ + version@ + " - "@ + date@, ""@]);
    let ghost entries = prs@.map_values(|pr: ReleasePullRequest| release_entry_line(pr));
    let mut i: usize = 0;
    while i < prs.len()
        invariant
            i <= prs@.len(),
            entries == prs@.map_values(|pr: ReleasePullRequest| release_entry_line(pr)),
            views_of(lines@) == start + entries.take(i as int),
        decreases prs@.len() - i,
    {
        let pr = &prs[i];
        let mut line = String::new();
        line.append("- ");
        line.append(pr.title.as_str());
        line.append(" ([#");
        push_decimal(&mut line, pr.number);
        line.append("](");
        line.append(pr.url.as_str());
        line.append("), ");
        line.append(pr.author_display.as_str());
        line.append(")");
        assert(line@ =~= release_entry_line(*pr));
        push_line(&mut lines, line);
        i += 1;
        assert(entries.take(i as int) =~= entries.take(i - 1).push(entries[i - 1]));
    }
    assert(entries.take(i as int) =~= entries);
    assert(views_of(lines@) =~= seq!["## v"@ + version@ + " - "@ + date@, ""@] + entries);
    let mut out = join_strings(&lines, "\n");
    out.append("\n");
    out
}

/// The line of a pull request in a release pull request's body.
pub open spec fn body_line(number: u64, url: Seq<char>, author: Seq<char>, title: Seq<char>) -> Seq<char> {
    "- [#"@ + decimal(number as nat) + "]("@ + url + ") "@ + author + " - "@ + title
}

/// The lines for the skipped pull requests, if there are any.
pub open spec fn skipped_lines(prs: Seq<SkippedPullRequest>) -> Seq<Seq<char>> {
    if prs.len() == 0 {
        Seq::empty()
    } else {
        seq![""@, "Skipped PRs (`release:none`):"@] + prs.map_values(
            |pr: SkippedPullRequest| body_line(pr.number, pr.url@, pr.author_display@, pr.title@),
        )
    }
}

/// The body of a release pull request.
pub open spec fn release_pr_body_text(version: Seq<char>, prepared: PreparedRelease) -> Seq<char> {
    let base = match prepared.base_tag {
        Some(t) => t@,
        None => "repo start"@,
    };
    join_parts(
        seq![
            RELEASE_PR_MARKER@,
            "Prepare release `v"@ + version + "`."@,
            ""@,
            "Included merged PRs since `"@ + base + "`."@,
            "Highest release label: `"@ + prepared.highest_release.spec_name() + "`"@,
            ""@,
            "Included PRs:"@,
        ] + prepared.included_prs@.map_values(
            |pr: ReleasePullRequest| body_line(pr.number, pr.url@, pr.author_display@, pr.title@),
        ) + skipped_lines(prepared.skipped_prs@) + seq![
            ""@,
            "Generated from merged PR titles and labels."@,
        ],
        "\n"@,
    ) + "\n"@
}

fn body_line_text(number: u64, url: &str, author: &str, title: &str) -> (r: String)
    ensures
        r@ == body_line(number, url@, author@, title@),
{
    let mut line = String::new();
    line.append("- [#");
    push_decimal(&mut line, number);
    line.append("](");
    line.append(url);
    line.append(") ");
    line.append(author);
    line.append(" - ");
    line.append(title);
    assert(line@ =~= body_line(number, url@, author@, title@));
    line
}

/// The body of the release pull request for `version`.
pub fn render_release_pr_body(version: &str, prepared: &PreparedRelease) -> (r: String)
    ensures
        r@ == release_pr_body_text(version@, *prepared),
{
    proof {
        reveal_strlit("");
    }
    let mut lines: Vec<String> = Vec::new();
    assert(views_of(lines@) =~= Seq::<Seq<char>>::empty());
    push_line(&mut lines, RELEASE_PR_MARKER.to_owned());
    let mut l1 = String::new();
    l1.append("Prepare release `v");
    l1.append(version);
    l1.append("`.");
    assert(l1@ =~= "Prepare release `v"@ + version@ + "`."@);
    push_line(&mut lines, l1);
    push_line(&mut lines, String::new());
    let mut l3 = String::new();
    l3.append("Included merged PRs since `");
    match &prepared.base_tag {
        Some(t) => l3.append(t.as_str()),
        None => l3.append("repo start"),
    }
    l3.append("`.");
    assert(l3@ =~= "Included merged PRs since `"@ + match prepared.base_tag {
        Some(t) => t@,
        None => "repo start"@,
    } + "`."@);
    push_line(&mut lines, l3);
    let mut l4 = String::new();
    l4.append("Highest release label: `");
    l4.append(prepared.highest_release.as_str());
    l4.append("`");
    assert(l4@ =~= "Highest release label: `"@ + prepared.highest_release.spec_name() + "`"@);
    push_line(&mut lines, l4);
    push_line(&mut lines, String::new());
    push_line(&mut lines, "Included PRs:".to_owned());
    let ghost head = views_of(lines@);
    let ghost included = prepared.included_prs@.map_values(
        |pr: ReleasePullRequest| body_line(pr.number, pr.url@, pr.author_display@, pr.title@),
    );
    let mut i: usize = 0;
    while i < prepared.included_prs.len()
        invariant
            i <= prepared.included_prs@.len(),
            included == prepared.included_prs@.map_values(
                |pr: ReleasePullRequest| body_line(pr.number, pr.url@, pr.author_display@, pr.title@),
            ),
            views_of(lines@) == head + included.take(i as int),
        decreases prepared.included_prs@.len() - i,
    {
        let pr = &prepared.included_prs[i];
        let line = body_line_text(pr.number, pr.url.as_str(), pr.author_display.as_str(), pr.title.as_str());
        push_line(&mut lines, line);
        i += 1;
        assert(included.take(i as int) =~= included.take(i - 1).push(included[i - 1]));
    }
    assert(included.take(i as int) =~= included);
    let ghost mid = views_of(lines@);
    if prepared.skipped_prs.len() > 0 {
        push_line(&mut lines, String::new());
        push_line(&mut lines, "Skipped PRs (`release:none`):".to_owned());
        let ghost head2 = views_of(lines@);
        assert(head2[mid.len() as int] =~= ""@);
        assert(head2 =~= mid + seq![""@, "Skipped PRs (`release:none`):"@]);
        let ghost skipped = prepared.skipped_prs@.map_values(
            |pr: SkippedPullRequest| body_line(pr.number, pr.url@, pr.author_display@, pr.title@),
        );
        let mut k: usize = 0;
        while k < prepared.skipped_prs.len()
            invariant
                k <= prepared.skipped_prs@.len(),
                skipped == prepared.skipped_prs@.map_values(
                    |pr: SkippedPullRequest| body_line(pr.number, pr.url@, pr.author_display@, pr.title@),
                ),
                views_of(lines@) == head2 + skipped.take(k as int),
            decreases prepared.skipped_prs@.len() - k,
        {
            let pr = &prepared.skipped_prs[k];
            let line = body_line_text(pr.number, pr.url.as_str(), pr.author_display.as_str(), pr.title.as_str());
            push_line(&mut lines, line);
            k += 1;
            assert(skipped.take(k as int) =~= skipped.take(k - 1).push(skipped[k - 1]));
        }
        assert(skipped.take(k as int) =~= skipped);
        assert(views_of(lines@) =~= mid + skipped_lines(prepared.skipped_prs@));
    } else {
        assert(views_of(lines@) =~= mid + skipped_lines(prepared.skipped_prs@));
    }
    let ghost tail_start = views_of(lines@);
    push_line(&mut lines, String::new());
    push_line(&mut lines, "Generated from merged PR titles and labels.".to_owned());
    assert(views_of(lines@)[tail_start.len() as int] =~= ""@);
    assert(head.len() == 7);
    assert(head[2] =~= ""@);
    assert(head[5] =~= ""@);
    let ghost base = match &prepared.base_tag {
        Some(t) => t@,
        None => "repo start"@,
    };
    let ghost spec_lines = seq![
        RELEASE_PR_MARKER@,
        "Prepare release `v"@ + version@ + "`."@,
        ""@,
        "Included merged PRs since `"@ + base + "`."@,
        "Highest release label: `"@ + prepared.highest_release.spec_name() + "`"@,
        ""@,
        "Included PRs:"@,
    ] + included + skipped_lines(prepared.skipped_prs@) + seq![
        ""@,
        "Generated from merged PR titles and labels."@,
    ];
    assert(views_of(lines@) =~= spec_lines);
    assert(release_pr_body_text(version@, *prepared) == join_parts(spec_lines, "\n"@) + "\n"@);
    let mut out = join_strings(&lines, "\n");
    out.append("\n");
    assert(included == prepared.included_prs@.map_values(
        |pr: ReleasePullRequest| body_line(pr.number, pr.url@, pr.author_display@, pr.title@),
    ));
    assert(out@ == release_pr_body_text(version@, *prepared));
    out
}

} // verus!

verus! {

/// The author of a GitHub pull request.
#[derive(Debug, PartialEq, Eq)]
pub struct GithubUser {
    /// Login.
    pub login: String,
}

/// A pull request that GitHub associates with a commit.
#[derive(Debug, PartialEq, Eq)]
pub struct AssociatedPullRequest {
    /// Number.
    pub number: u64,
    /// Title.
    pub title: String,
    /// Web address.
    pub url: String,
    /// Body text, if any.
    pub body: Option<String>,
    /// Merge time, when merged.
    pub merged_at: Option<String>,
    /// Author.
    pub user: GithubUser,
    /// Labels.
    pub labels: Vec<GithubLabel>,
}

/// Whether a pull request can go into a release: it was merged and is not a
/// generated release pull request.
pub open spec fn is_eligible(pr: AssociatedPullRequest) -> bool {
    &&& pr.merged_at is Some
    &&& !(pr.body matches Some(b) && contains_seq(b@, RELEASE_PR_MARKER@))
}

/// The position of the first eligible pull request numbered `n` in `found`.
pub open spec fn first_eligible(found: Seq<AssociatedPullRequest>, n: u64, i: int) -> bool {
    &&& 0 <= i < found.len()
    &&& is_eligible(found[i])
    &&& found[i].number == n
    &&& forall|j: int| 0 <= j < i ==> !(is_eligible(#[trigger] found[j]) && found[j].number == n)
}

/// Candidate numbers increase along the list.
#[verifier::opaque]
pub open spec fn numbers_increase(c: Seq<AssociatedPullRequest>) -> bool {
    forall|a: int, b: int| 0 <= a < b < c.len() ==> (#[trigger] c[a]).number < (#[trigger] c[b]).number
}

/// Each candidate is the first eligible pull request of its number.
#[verifier::opaque]
pub open spec fn firsts_of_numbers(found: Seq<AssociatedPullRequest>, c: Seq<AssociatedPullRequest>) -> bool {
    forall|k: int| 0 <= k < c.len() ==> exists|i: int| first_eligible(found, (#[trigger] c[k]).number, i) && c[k] == found[i]
}

/// Every eligible pull request's number has a candidate.
#[verifier::opaque]
pub open spec fn covers_eligible(found: Seq<AssociatedPullRequest>, c: Seq<AssociatedPullRequest>) -> bool {
    forall|i: int| 0 <= i < found.len() && is_eligible(#[trigger] found[i]) ==> exists|k: int| 0 <= k < c.len() && (#[trigger] c[k]).number == found[i].number
}

/// The candidates of a release: for each number that an eligible pull
/// request carries, the first such pull request, in increasing number order.
pub open spec fn is_candidate_list(found: Seq<AssociatedPullRequest>, c: Seq<AssociatedPullRequest>) -> bool {
    &&& numbers_increase(c)
    &&& firsts_of_numbers(found, c)
    &&& covers_eligible(found, c)
}

fn eligible(pr: &AssociatedPullRequest) -> (r: bool)
    ensures
        r == is_eligible(*pr),
{
    let generated = match &pr.body {
        Some(b) => is_generated_release_pr(Some(b.as_str())),
        None => is_generated_release_pr(None),
    };
    pr.merged_at.is_some() && !generated
}

/// Extending the found pull requests with an ineligible one, or with one
/// whose number is already a candidate, keeps the candidate list.
proof fn lemma_candidates_unchanged(prefix: Seq<AssociatedPullRequest>, pr: AssociatedPullRequest, c: Seq<AssociatedPullRequest>)
    requires
        is_candidate_list(prefix, c),
        is_eligible(pr) ==> exists|k: int| 0 <= k < c.len() && (#[trigger] c[k]).number == pr.number,
    ensures
        is_candidate_list(prefix.push(pr), c),
{
    reveal(numbers_increase);
    reveal(firsts_of_numbers);
    reveal(covers_eligible);
    let next = prefix.push(pr);
    assert forall|k: int| 0 <= k < c.len() implies exists|x: int| first_eligible(next, (#[trigger] c[k]).number, x) && c[k] == next[x] by {
        let x = choose|x: int| first_eligible(prefix, c[k].number, x) && c[k] == prefix[x];
        assert(first_eligible(next, c[k].number, x));
    }
    assert forall|x: int| 0 <= x < next.len() && is_eligible(#[trigger] next[x]) implies exists|k: int| 0 <= k < c.len() && (#[trigger] c[k]).number == next[x].number by {
        if x < prefix.len() {
            assert(prefix[x] == next[x]);
        }
    }
}

/// Inserting a new number at its place keeps the numbers increasing.
proof fn lemma_insert_keeps_order(c: Seq<AssociatedPullRequest>, pr: AssociatedPullRequest, p: int)
    requires
        forall|a: int, b: int| 0 <= a < b < c.len() ==> (#[trigger] c[a]).number < (#[trigger] c[b]).number,
        forall|k: int| 0 <= k < c.len() ==> (#[trigger] c[k]).number != pr.number,
        0 <= p <= c.len(),
        forall|k: int| p <= k < c.len() ==> (#[trigger] c[k]).number > pr.number,
        p > 0 ==> c[p - 1].number <= pr.number,
    ensures
        forall|a: int, b: int| 0 <= a < b < c.insert(p, pr).len() ==> (#[trigger] c.insert(p, pr)[a]).number < (#[trigger] c.insert(p, pr)[b]).number,
{
    let out = c.insert(p, pr);
    assert forall|a: int, b: int| 0 <= a < b < out.len() implies (#[trigger] out[a]).number < (#[trigger] out[b]).number by {
        if a < p && b == p {
            if a < p - 1 {
                assert(c[a].number < c[p - 1].number);
            }
        } else if a < p && b > p {
            assert(out[b] == c[b - 1]);
        } else if a == p && b > p {
            assert(out[b] == c[b - 1]);
        } else if a > p {
            assert(out[a] == c[a - 1]);
            assert(out[b] == c[b - 1]);
        }
    }
}

/// An eligible pull request whose number no candidate carries is the first
/// eligible one with that number.
proof fn lemma_new_number_first(prefix: Seq<AssociatedPullRequest>, pr: AssociatedPullRequest, c: Seq<AssociatedPullRequest>)
    requires
        is_candidate_list(prefix, c),
        is_eligible(pr),
        forall|k: int| 0 <= k < c.len() ==> (#[trigger] c[k]).number != pr.number,
    ensures
        first_eligible(prefix.push(pr), pr.number, prefix.len() as int),
{
    reveal(numbers_increase);
    reveal(firsts_of_numbers);
    reveal(covers_eligible);
    let next = prefix.push(pr);
    let i = prefix.len() as int;
    assert forall|j: int| 0 <= j < i implies !(is_eligible(#[trigger] next[j]) && next[j].number == pr.number) by {
        assert(next[j] == prefix[j]);
        if is_eligible(prefix[j]) && prefix[j].number == pr.number {
            let k = choose|k: int| 0 <= k < c.len() && (#[trigger] c[k]).number == prefix[j].number;
            assert(c[k].number != pr.number);
        }
    }
}

/// After the insertion, each candidate is the first eligible pull request
/// with its number.
proof fn lemma_inserted_are_first(prefix: Seq<AssociatedPullRequest>, pr: AssociatedPullRequest, c: Seq<AssociatedPullRequest>, p: int)
    requires
        is_candidate_list(prefix, c),
        first_eligible(prefix.push(pr), pr.number, prefix.len() as int),
        0 <= p <= c.len(),
    ensures
        forall|k: int| 0 <= k < c.insert(p, pr).len() ==> exists|x: int| first_eligible(prefix.push(pr), (#[trigger] c.insert(p, pr)[k]).number, x) && c.insert(p, pr)[k] == prefix.push(pr)[x],
{
    reveal(numbers_increase);
    reveal(firsts_of_numbers);
    reveal(covers_eligible);
    let next = prefix.push(pr);
    let out = c.insert(p, pr);
    let i = prefix.len() as int;
    assert forall|k: int| 0 <= k < out.len() implies exists|x: int| first_eligible(next, (#[trigger] out[k]).number, x) && out[k] == next[x] by {
        if k == p {
            assert(first_eligible(next, out[k].number, i) && out[k] == next[i]);
        } else {
            let kk = if k < p { k } else { k - 1 };
            assert(out[k] == c[kk]);
            let x = choose|x: int| first_eligible(prefix, c[kk].number, x) && c[kk] == prefix[x];
            assert(first_eligible(next, out[k].number, x));
        }
    }
}

/// After the insertion, every eligible number has a candidate.
proof fn lemma_inserted_cover(prefix: Seq<AssociatedPullRequest>, pr: AssociatedPullRequest, c: Seq<AssociatedPullRequest>, p: int)
    requires
        is_candidate_list(prefix, c),
        0 <= p <= c.len(),
    ensures
        forall|x: int| 0 <= x < prefix.push(pr).len() && is_eligible(#[trigger] prefix.push(pr)[x]) ==> exists|k: int| 0 <= k < c.insert(p, pr).len() && (#[trigger] c.insert(p, pr)[k]).number == prefix.push(pr)[x].number,
{
    reveal(numbers_increase);
    reveal(firsts_of_numbers);
    reveal(covers_eligible);
    let next = prefix.push(pr);
    let out = c.insert(p, pr);
    let i = prefix.len() as int;
    assert forall|x: int| 0 <= x < next.len() && is_eligible(#[trigger] next[x]) implies exists|k: int| 0 <= k < out.len() && (#[trigger] out[k]).number == next[x].number by {
        if x < i {
            assert(prefix[x] == next[x]);
            let k = choose|k: int| 0 <= k < c.len() && (#[trigger] c[k]).number == prefix[x].number;
            if k < p {
                assert(out[k] == c[k]);
            } else {
                assert(out[k + 1] == c[k]);
            }
        } else {
            assert(out[p].number == next[x].number);
        }
    }
}

/// Inserting an eligible pull request with a new number at its place by
/// number extends the candidate list.
proof fn lemma_candidates_inserted(prefix: Seq<AssociatedPullRequest>, pr: AssociatedPullRequest, c: Seq<AssociatedPullRequest>, p: int)
    requires
        is_candidate_list(prefix, c),
        is_eligible(pr),
        forall|k: int| 0 <= k < c.len() ==> (#[trigger] c[k]).number != pr.number,
        0 <= p <= c.len(),
        forall|k: int| p <= k < c.len() ==> (#[trigger] c[k]).number > pr.number,
        p > 0 ==> c[p - 1].number <= pr.number,
    ensures
        is_candidate_list(prefix.push(pr), c.insert(p, pr)),
{
    reveal(numbers_increase);
    reveal(firsts_of_numbers);
    reveal(covers_eligible);
    lemma_insert_keeps_order(c, pr, p);
    lemma_new_number_first(prefix, pr, c);
    lemma_inserted_are_first(prefix, pr, c, p);
    lemma_inserted_cover(prefix, pr, c, p);
}

/// Add one found pull request to the candidates.
fn add_candidate(out: &mut Vec<AssociatedPullRequest>, pr: AssociatedPullRequest, Ghost(prefix): Ghost<Seq<AssociatedPullRequest>>)
    requires
        is_candidate_list(prefix, old(out)@),
    ensures
        is_candidate_list(prefix.push(pr), final(out)@),
{
    proof {
        reveal(numbers_increase);
        reveal(firsts_of_numbers);
        reveal(covers_eligible);
    }
    if !eligible(&pr) {
        proof {
            lemma_candidates_unchanged(prefix, pr, out@);
        }
        return;
    }
    let mut j: usize = 0;
    while j < out.len()
        invariant
            j <= out@.len(),
            is_candidate_list(prefix, out@),
            is_eligible(pr),
            forall|k: int| 0 <= k < j ==> (#[trigger] out@[k]).number != pr.number,
        decreases out@.len() - j,
    {
        if out[j].number == pr.number {
            proof {
                lemma_candidates_unchanged(prefix, pr, out@);
            }
            return;
        }
        j += 1;
    }
    let mut p = out.len();
    while p > 0 && out[p - 1].number > pr.number
        invariant
            p <= out@.len(),
            is_candidate_list(prefix, out@),
            is_eligible(pr),
            forall|k: int| 0 <= k < out@.len() ==> (#[trigger] out@[k]).number != pr.number,
            forall|k: int| p <= k < out@.len() ==> (#[trigger] out@[k]).number > pr.number,
        decreases p,
    {
        p -= 1;
    }
    proof {
        lemma_candidates_inserted(prefix, pr, out@, p as int);
    }
    out.insert(p, pr);
}

/// The release candidates among the pull requests found for the commits of
/// a release, in the order they were found: merged, not generated, the
/// first of each number, ordered by number.
pub fn collect_release_candidates(found: Vec<AssociatedPullRequest>) -> (r: Vec<AssociatedPullRequest>)
    ensures
        is_candidate_list(found@, r@),
{
    proof {
        reveal(numbers_increase);
        reveal(firsts_of_numbers);
        reveal(covers_eligible);
    }
    let ghost all = found@;
    let total = found.len();
    let mut rest = found;
    let mut out: Vec<AssociatedPullRequest> = Vec::new();
    let mut i: usize = 0;
    assert(all.take(0) =~= Seq::<AssociatedPullRequest>::empty());
    while rest.len() > 0
        invariant
            i + rest@.len() == all.len(),
            all.len() == total,
            rest@ == all.skip(i as int),
            is_candidate_list(all.take(i as int), out@),
        decreases rest@.len(),
    {
        let pr = rest.remove(0);
        proof {
            assert(pr == all[i as int]);
            assert(all.take(i + 1) =~= all.take(i as int).push(pr));
        }
        add_candidate(&mut out, pr, Ghost(all.take(i as int)));
        i += 1;
        assert(rest@ =~= all.skip(i as int));
    }
    assert(all.take(i as int) =~= all);
    out
}

/// A login and the name shown for its pull requests.
#[derive(Debug, PartialEq, Eq)]
pub struct AuthorName {
    /// GitHub login.
    pub login: String,
    /// Name shown in release texts.
    pub display: String,
}

/// The name shown for a login: the trimmed profile name when there is a
/// non-blank one, else `@login`.
pub open spec fn display_name_of(login: Seq<char>, profile_name: Option<Seq<char>>) -> Seq<char> {
    match profile_name {
        Some(n) => if trim_ws(n).len() > 0 {
            trim_ws(n)
        } else {
            "@"@ + login
        },
        None => "@"@ + login,
    }
}

/// The name shown for a login, from the name of its GitHub profile when the
/// profile could be read.
pub fn author_display_name(login: &str, profile_name: Option<&str>) -> (r: String)
    ensures
        r@ == display_name_of(login@, match profile_name {
            Some(n) => Some(n@),
            None => None,
        }),
{
    if let Some(n) = profile_name {
        let t = trim(n);
        if t.as_str().unicode_len() > 0 {
            return t;
        }
    }
    let mut out = String::new();
    out.append("@");
    out.append(login);
    out
}

/// The name shown for a login: the first entry for it in `names`, else
/// `@login`.
pub open spec fn author_display(login: Seq<char>, names: Seq<AuthorName>) -> Seq<char>
    decreases names.len(),
{
    if names.len() == 0 {
        "@"@ + login
    } else if names[0].login@ == login {
        names[0].display@
    } else {
        author_display(login, names.drop_first())
    }
}

fn lookup_author(login: &str, names: &[AuthorName]) -> (r: String)
    ensures
        r@ == author_display(login@, names@),
{
    let mut i: usize = 0;
    assert(names@.skip(0) =~= names@);
    while i < names.len()
        invariant
            i <= names@.len(),
            author_display(login@, names@) == author_display(login@, names@.skip(i as int)),
        decreases names@.len() - i,
    {
        assert(names@.skip(i as int).drop_first() =~= names@.skip(i + 1));
        if str_equal(names[i].login.as_str(), login) {
            return names[i].display.clone();
        }
        i += 1;
    }
    let mut out = String::new();
    out.append("@");
    out.append(login);
    out
}

/// No login occurs twice in `logins`.
pub open spec fn logins_distinct(logins: Seq<Seq<char>>) -> bool {
    forall|a: int, b: int| 0 <= a < b < logins.len() ==> #[trigger] logins[a] != #[trigger] logins[b]
}

/// Some pull request of `prs` was opened by `login`.
pub open spec fn has_login(prs: Seq<AssociatedPullRequest>, login: Seq<char>) -> bool {
    exists|i: int| 0 <= i < prs.len() && (#[trigger] prs[i]).user.login@ == login
}

/// Each entry of `logins` is the login of some pull request of `prs`.
pub open spec fn logins_from(prs: Seq<AssociatedPullRequest>, logins: Seq<Seq<char>>) -> bool {
    forall|k: int| 0 <= k < logins.len() ==> has_login(prs, #[trigger] logins[k])
}

/// The login of each pull request of `prs` occurs in `logins`.
pub open spec fn logins_cover(prs: Seq<AssociatedPullRequest>, logins: Seq<Seq<char>>) -> bool {
    forall|i: int| 0 <= i < prs.len() ==> exists|k: int| 0 <= k < logins.len() && #[trigger] logins[k] == (#[trigger] prs[i]).user.login@
}

/// Whether `logins` holds each login of `prs` exactly once, and nothing else.
pub open spec fn is_login_list(prs: Seq<AssociatedPullRequest>, logins: Seq<Seq<char>>) -> bool {
    &&& logins_distinct(logins)
    &&& logins_from(prs, logins)
    &&& logins_cover(prs, logins)
}

proof fn lemma_has_login_push(prs: Seq<AssociatedPullRequest>, pr: AssociatedPullRequest, login: Seq<char>)
    requires
        has_login(prs, login),
    ensures
        has_login(prs.push(pr), login),
{
    let i = choose|i: int| 0 <= i < prs.len() && (#[trigger] prs[i]).user.login@ == login;
    assert(prs.push(pr)[i] == prs[i]);
}

proof fn lemma_logins_from_push(prs: Seq<AssociatedPullRequest>, pr: AssociatedPullRequest, logins: Seq<Seq<char>>)
    requires
        logins_from(prs, logins),
    ensures
        logins_from(prs.push(pr), logins),
{
    assert forall|k: int| 0 <= k < logins.len() implies has_login(prs.push(pr), #[trigger] logins[k]) by {
        lemma_has_login_push(prs, pr, logins[k]);
    }
}

proof fn lemma_logins_cover_push(prs: Seq<AssociatedPullRequest>, pr: AssociatedPullRequest, logins: Seq<Seq<char>>, k0: int)
    requires
        logins_cover(prs, logins),
        0 <= k0 < logins.len(),
        logins[k0] == pr.user.login@,
    ensures
        logins_cover(prs.push(pr), logins),
{
    let next = prs.push(pr);
    assert forall|i: int| 0 <= i < next.len() implies exists|k: int| 0 <= k < logins.len() && #[trigger] logins[k] == (#[trigger] next[i]).user.login@ by {
        if i < prs.len() {
            assert(next[i] == prs[i]);
            let k = choose|k: int| 0 <= k < logins.len() && #[trigger] logins[k] == prs[i].user.login@;
            assert(logins[k] == next[i].user.login@);
        } else {
            assert(next[i] == pr);
            assert(logins[k0] == next[i].user.login@);
        }
    }
}

/// Adding a pull request whose login is listed keeps the list.
proof fn lemma_login_seen(prs: Seq<AssociatedPullRequest>, pr: AssociatedPullRequest, logins: Seq<Seq<char>>)
    requires
        is_login_list(prs, logins),
        exists|k: int| 0 <= k < logins.len() && #[trigger] logins[k] == pr.user.login@,
    ensures
        is_login_list(prs.push(pr), logins),
{
    let k0 = choose|k: int| 0 <= k < logins.len() && #[trigger] logins[k] == pr.user.login@;
    lemma_logins_from_push(prs, pr, logins);
    lemma_logins_cover_push(prs, pr, logins, k0);
}

/// Adding a pull request with a new login, and the login, keeps the list.
proof fn lemma_login_new(prs: Seq<AssociatedPullRequest>, pr: AssociatedPullRequest, logins: Seq<Seq<char>>)
    requires
        is_login_list(prs, logins),
        forall|k: int| 0 <= k < logins.len() ==> #[trigger] logins[k] != pr.user.login@,
    ensures
        is_login_list(prs.push(pr), logins.push(pr.user.login@)),
{
    let next = prs.push(pr);
    let out = logins.push(pr.user.login@);
    assert forall|a: int, b: int| 0 <= a < b < out.len() implies #[trigger] out[a] != #[trigger] out[b] by {
        if b < logins.len() {
            assert(out[a] == logins[a] && out[b] == logins[b]);
        } else {
            assert(out[a] == logins[a]);
        }
    }
    assert forall|k: int| 0 <= k < out.len() implies has_login(next, #[trigger] out[k]) by {
        if k < logins.len() {
            assert(out[k] == logins[k]);
            lemma_has_login_push(prs, pr, logins[k]);
        } else {
            assert(next[prs.len() as int] == pr);
        }
    }
    assert forall|i: int| 0 <= i < next.len() implies exists|k: int| 0 <= k < out.len() && #[trigger] out[k] == (#[trigger] next[i]).user.login@ by {
        if i < prs.len() {
            assert(next[i] == prs[i]);
            let k = choose|k: int| 0 <= k < logins.len() && #[trigger] logins[k] == prs[i].user.login@;
            assert(out[k] == logins[k]);
        } else {
            assert(out[logins.len() as int] == next[i].user.login@);
        }
    }
}

/// The logins of the candidates, each once, in order of first appearance.
pub fn distinct_logins(candidates: &[AssociatedPullRequest]) -> (r: Vec<String>)
    ensures
        is_login_list(candidates@, views_of(r@)),
{
    let mut out: Vec<String> = Vec::new();
    let mut i: usize = 0;
    assert(candidates@.take(0) =~= Seq::<AssociatedPullRequest>::empty());
    assert(views_of(out@) =~= Seq::<Seq<char>>::empty());
    while i < candidates.len()
        invariant
            i <= candidates@.len(),
            is_login_list(candidates@.take(i as int), views_of(out@)),
        decreases candidates@.len() - i,
    {
        assert(candidates@.take(i + 1) =~= candidates@.take(i as int).push(candidates@[i as int]));
        let login = candidates[i].user.login.as_str();
        let mut j: usize = 0;
        let mut seen = false;
        while j < out.len()
            invariant
                j <= out@.len(),
                seen ==> exists|k: int| 0 <= k < views_of(out@).len() && #[trigger] views_of(out@)[k] == login@,
                !seen ==> forall|k: int| 0 <= k < j ==> #[trigger] views_of(out@)[k] != login@,
            decreases out@.len() - j,
        {
            if str_equal(out[j].as_str(), login) {
                seen = true;
                assert(views_of(out@)[j as int] == login@);
            }
            j += 1;
        }
        if seen {
            proof {
                lemma_login_seen(candidates@.take(i as int), candidates@[i as int], views_of(out@));
            }
        } else {
            proof {
                lemma_login_new(candidates@.take(i as int), candidates@[i as int], views_of(out@));
            }
            let ghost before = views_of(out@);
            out.push(login.to_owned());
            assert(views_of(out@) =~= before.push(login@));
        }
        i += 1;
    }
    assert(candidates@.take(i as int) =~= candidates@);
    out
}

/// The parts of a release pull request: number, title, address, author
/// name, release kind and merge time.
pub open spec fn release_pr_view(pr: ReleasePullRequest) -> (u64, Seq<char>, Seq<char>, Seq<char>, ReleaseKind, Seq<char>) {
    (pr.number, pr.title@, pr.url@, pr.author_display@, pr.release, pr.merged_at@)
}

/// The parts of each release pull request.
pub open spec fn release_views(s: Seq<ReleasePullRequest>) -> Seq<(u64, Seq<char>, Seq<char>, Seq<char>, ReleaseKind, Seq<char>)> {
    s.map_values(|pr: ReleasePullRequest| release_pr_view(pr))
}

/// The parts of a skipped pull request: number, title, address and author
/// name.
pub open spec fn skipped_pr_view(pr: SkippedPullRequest) -> (u64, Seq<char>, Seq<char>, Seq<char>) {
    (pr.number, pr.title@, pr.url@, pr.author_display@)
}

/// The release kind of a candidate, or why it has none.
pub open spec fn candidate_label(pr: AssociatedPullRequest) -> Result<ReleaseKind, Seq<char>> {
    release_label_outcome(pr.number, pr.title@, pr.labels@)
}

/// The first label problem among the candidates, in order.
pub open spec fn first_label_error(c: Seq<AssociatedPullRequest>) -> Option<Seq<char>>
    decreases c.len(),
{
    if c.len() == 0 {
        None
    } else {
        match first_label_error(c.drop_last()) {
            Some(m) => Some(m),
            None => match candidate_label(c.last()) {
                Err(m) => Some(m),
                Ok(_) => None,
            },
        }
    }
}

/// The merge time of a candidate, empty when it has none.
pub open spec fn merged_text(pr: AssociatedPullRequest) -> Seq<char> {
    match pr.merged_at {
        Some(m) => m@,
        None => Seq::empty(),
    }
}

/// The candidates that go into the release, in candidate order.
pub open spec fn included_views(c: Seq<AssociatedPullRequest>, names: Seq<AuthorName>) -> Seq<(u64, Seq<char>, Seq<char>, Seq<char>, ReleaseKind, Seq<char>)>
    decreases c.len(),
{
    if c.len() == 0 {
        Seq::empty()
    } else {
        let pr = c.last();
        included_views(c.drop_last(), names) + match candidate_label(pr) {
            Ok(k) => if k != ReleaseKind::NoRelease {
                seq![(pr.number, pr.title@, pr.url@, author_display(pr.user.login@, names), k, merged_text(pr))]
            } else {
                Seq::empty()
            },
            Err(_) => Seq::empty(),
        }
    }
}

/// The candidates marked `release:none`, in candidate order.
pub open spec fn skipped_views(c: Seq<AssociatedPullRequest>, names: Seq<AuthorName>) -> Seq<(u64, Seq<char>, Seq<char>, Seq<char>)>
    decreases c.len(),
{
    if c.len() == 0 {
        Seq::empty()
    } else {
        let pr = c.last();
        skipped_views(c.drop_last(), names) + match candidate_label(pr) {
            Ok(k) => if k == ReleaseKind::NoRelease {
                seq![(pr.number, pr.title@, pr.url@, author_display(pr.user.login@, names))]
            } else {
                Seq::empty()
            },
            Err(_) => Seq::empty(),
        }
    }
}

/// The highest release kind among the candidates.
pub open spec fn highest_kind(c: Seq<AssociatedPullRequest>) -> ReleaseKind
    decreases c.len(),
{
    if c.len() == 0 {
        ReleaseKind::NoRelease
    } else {
        let h = highest_kind(c.drop_last());
        match candidate_label(c.last()) {
            Ok(k) => if k.rank() > h.rank() {
                k
            } else {
                h
            },
            Err(_) => h,
        }
    }
}

/// The order release pull requests are listed in: merge time, then number.
pub open spec fn release_pr_order(a: ReleasePullRequest, b: ReleasePullRequest) -> int {
    if chars_order(a.merged_at@, b.merged_at@) != 0 {
        chars_order(a.merged_at@, b.merged_at@)
    } else if a.number < b.number {
        -1
    } else if a.number > b.number {
        1
    } else {
        0
    }
}

/// Release pull requests in merge order.
pub open spec fn release_prs_sorted(s: Seq<ReleasePullRequest>) -> bool {
    forall|i: int, j: int| 0 <= i < j < s.len() ==> release_pr_order(#[trigger] s[i], #[trigger] s[j]) <= 0
}

proof fn lemma_release_pr_order(a: ReleasePullRequest, b: ReleasePullRequest, c: ReleasePullRequest)
    ensures
        release_pr_order(a, b) == -release_pr_order(b, a),
        release_pr_order(a, b) <= 0 && release_pr_order(b, c) <= 0 ==> release_pr_order(a, c) <= 0,
{
    lemma_chars_order(a.merged_at@, b.merged_at@, c.merged_at@);
    lemma_chars_order(b.merged_at@, a.merged_at@, c.merged_at@);
    lemma_chars_order(a.merged_at@, c.merged_at@, b.merged_at@);
}

fn compare_release_prs(a: &ReleasePullRequest, b: &ReleasePullRequest) -> (r: i8)
    ensures
        r == release_pr_order(*a, *b),
{
    let c = compare_strings(a.merged_at.as_str(), b.merged_at.as_str());
    if c != 0 {
        c
    } else if a.number < b.number {
        -1
    } else if a.number > b.number {
        1
    } else {
        0
    }
}

/// Insert `x` into sorted `out` after every pull request that does not come
/// after it.
fn insert_release_pr(out: &mut Vec<ReleasePullRequest>, x: ReleasePullRequest)
    requires
        release_prs_sorted(old(out)@),
    ensures
        release_prs_sorted(final(out)@),
        release_views(final(out)@).to_multiset() == release_views(old(out)@).to_multiset().insert(release_pr_view(x)),
{
    let mut j = out.len();
    while j > 0 && compare_release_prs(&out[j - 1], &x) > 0
        invariant
            j <= out.len(),
            forall|k: int| j <= k < out.len() ==> release_pr_order(#[trigger] out@[k], x) > 0,
        decreases j,
    {
        j -= 1;
    }
    let ghost before = out@;
    proof {
        assert forall|k: int| 0 <= k < j implies release_pr_order(#[trigger] before[k], x) <= 0 by {
            lemma_release_pr_order(before[k], before[j - 1], x);
        }
        assert forall|k: int| j <= k < before.len() implies release_pr_order(x, #[trigger] before[k]) <= 0 by {
            lemma_release_pr_order(before[k], x, x);
        }
        to_multiset_insert(release_views(before), j as int, release_pr_view(x));
    }
    out.insert(j, x);
    assert(out@ == before.insert(j as int, x));
    assert(release_views(out@) =~= release_views(before).insert(j as int, release_pr_view(x)));
    assert forall|a: int, b: int| 0 <= a < b < out@.len() implies release_pr_order(
        #[trigger] out@[a],
        #[trigger] out@[b],
    ) <= 0 by {
        if a < j && b > j {
            assert(out@[a] == before[a]);
            assert(out@[b] == before[b - 1]);
        } else if b < j {
        } else if a > j {
            assert(out@[a] == before[a - 1]);
            assert(out@[b] == before[b - 1]);
        }
    }
}

/// The error of a release preparation over the candidates `c`, if it fails.
pub open spec fn prepare_error(base_tag: Option<Seq<char>>, c: Seq<AssociatedPullRequest>, names: Seq<AuthorName>) -> Option<Seq<char>> {
    if c.len() == 0 {
        Some(
            match base_tag {
                Some(t) => "no merged releasable PRs found since "@ + t,
                None => "no merged releasable PRs found"@,
            },
        )
    } else if first_label_error(c) is Some {
        first_label_error(c)
    } else if included_views(c, names).len() == 0 {
        Some(
            match base_tag {
                Some(t) => "all merged PRs since "@ + t + " are marked release:none"@,
                None => "all merged PRs are marked release:none"@,
            },
        )
    } else {
        None
    }
}

/// What a successful preparation over the candidates `c` holds.
pub open spec fn prepared_from(p: PreparedRelease, base_tag: Option<String>, c: Seq<AssociatedPullRequest>, names: Seq<AuthorName>) -> bool {
    &&& p.base_tag == base_tag
    &&& release_prs_sorted(p.included_prs@)
    &&& release_views(p.included_prs@).to_multiset() == included_views(c, names).to_multiset()
    &&& p.skipped_prs@.map_values(|pr: SkippedPullRequest| skipped_pr_view(pr)) == skipped_views(c, names)
    &&& p.highest_release == highest_kind(c)
}

/// The outcome of preparing a release from the candidates `c`.
pub open spec fn prepare_outcome(r: Result<PreparedRelease, ToolError>, base_tag: Option<String>, c: Seq<AssociatedPullRequest>, names: Seq<AuthorName>) -> bool {
    match prepare_error(
        match base_tag {
            Some(t) => Some(t@),
            None => None,
        },
        c,
        names,
    ) {
        Some(m) => r matches Err(ToolError::Message(e)) && e@ == m,
        None => r matches Ok(p) && prepared_from(p, base_tag, c, names),
    }
}

fn tag_message(base_tag: &Option<String>, with_tag: &str, tag_suffix: &str, without_tag: &str) -> (r: ToolError)
    ensures
        r matches ToolError::Message(m) && m@ == match base_tag {
            Some(t) => with_tag@ + t@ + tag_suffix@,
            None => without_tag@,
        },
{
    let mut m = String::new();
    match base_tag {
        Some(t) => {
            m.append(with_tag);
            m.append(t.as_str());
            m.append(tag_suffix);
        },
        None => m.append(without_tag),
    }
    ToolError::Message(m)
}

/// A label problem at `i` after none before it is the first one.
proof fn lemma_first_label_error_prefix(c: Seq<AssociatedPullRequest>, i: int)
    requires
        0 <= i < c.len(),
        first_label_error(c.take(i)) is None,
        candidate_label(c[i]) is Err,
    ensures
        first_label_error(c) == Some(candidate_label(c[i])->Err_0),
{
    assert(c.take(i + 1).drop_last() =~= c.take(i));
    lemma_first_label_error_kept(c, i + 1, candidate_label(c[i])->Err_0);
    assert(c.take(c.len() as int) =~= c);
}

proof fn lemma_first_label_error_kept(c: Seq<AssociatedPullRequest>, k: int, m: Seq<char>)
    requires
        0 < k <= c.len(),
        first_label_error(c.take(k)) == Some(m),
    ensures
        first_label_error(c.take(c.len() as int)) == Some(m),
    decreases c.len() - k,
{
    if k < c.len() {
        assert(c.take(k + 1).drop_last() =~= c.take(k));
        lemma_first_label_error_kept(c, k + 1, m);
    }
}

/// Split the candidates into included and skipped pull requests.
fn split_candidates(c: &Vec<AssociatedPullRequest>, names: &[AuthorName]) -> (r: Result<(Vec<ReleasePullRequest>, Vec<SkippedPullRequest>, ReleaseKind), ToolError>)
    ensures
        match first_label_error(c@) {
            Some(m) => r matches Err(ToolError::Message(e)) && e@ == m,
            None => r matches Ok((inc, sk, h)) && release_views(inc@) == included_views(c@, names@)
                && sk@.map_values(|pr: SkippedPullRequest| skipped_pr_view(pr)) == skipped_views(c@, names@)
                && h == highest_kind(c@),
        },
{
    let mut included: Vec<ReleasePullRequest> = Vec::new();
    let mut skipped: Vec<SkippedPullRequest> = Vec::new();
    let mut highest = ReleaseKind::NoRelease;
    let mut i: usize = 0;
    assert(c@.take(0) =~= Seq::<AssociatedPullRequest>::empty());
    while i < c.len()
        invariant
            i <= c@.len(),
            first_label_error(c@.take(i as int)) is None,
            release_views(included@) == included_views(c@.take(i as int), names@),
            skipped@.map_values(|pr: SkippedPullRequest| skipped_pr_view(pr)) == skipped_views(c@.take(i as int), names@),
            highest == highest_kind(c@.take(i as int)),
        decreases c@.len() - i,
    {
        let ghost prefix = c@.take(i as int);
        assert(c@.take(i + 1).drop_last() =~= prefix);
        assert(c@.take(i + 1).last() == c@[i as int]);
        let pr = &c[i];
        let release = match parse_release_label(pr.number, pr.title.as_str(), pr.labels.as_slice()) {
            Err(e) => {
                proof {
                    lemma_first_label_error_prefix(c@, i as int);
                }
                return Err(e);
            },
            Ok(k) => k,
        };
        let author_display = lookup_author(pr.user.login.as_str(), names);
        if release == ReleaseKind::NoRelease {
            let ghost before = skipped@.map_values(|p: SkippedPullRequest| skipped_pr_view(p));
            skipped.push(
                SkippedPullRequest {
                    number: pr.number,
                    title: pr.title.clone(),
                    url: pr.url.clone(),
                    author_display,
                },
            );
            assert(skipped@.map_values(|p: SkippedPullRequest| skipped_pr_view(p)) =~= before.push(skipped_pr_view(skipped@.last())));
        } else {
            if release.is_above(highest) {
                highest = release;
            }
            let merged_at = match &pr.merged_at {
                Some(m) => m.clone(),
                None => String::new(),
            };
            let ghost before = release_views(included@);
            included.push(
                ReleasePullRequest {
                    number: pr.number,
                    title: pr.title.clone(),
                    url: pr.url.clone(),
                    author_display,
                    release,
                    merged_at,
                },
            );
            assert(release_views(included@) =~= before.push(release_pr_view(included@.last())));
        }
        i += 1;
    }
    assert(c@.take(i as int) =~= c@);
    Ok((included, skipped, highest))
}

/// Prepare a release from its candidates.
fn prepare_from_candidates(base_tag: Option<String>, c: &Vec<AssociatedPullRequest>, names: &[AuthorName]) -> (r: Result<PreparedRelease, ToolError>)
    ensures
        prepare_outcome(r, base_tag, c@, names@),
{
    proof {
        reveal_strlit("");
    }
    if c.len() == 0 {
        return Err(tag_message(&base_tag, "no merged releasable PRs found since ", "", "no merged releasable PRs found"));
    }
    let (included, skipped, highest) = match split_candidates(c, names) {
        Err(e) => return Err(e),
        Ok(parts) => parts,
    };
    if included.len() == 0 {
        assert(release_views(included@).len() == 0);
        return Err(tag_message(&base_tag, "all merged PRs since ", " are marked release:none", "all merged PRs are marked release:none"));
    }
    let ghost included_seq = included@;
    let total = included.len();
    let mut sorted: Vec<ReleasePullRequest> = Vec::new();
    let mut rest = included;
    let mut i: usize = 0;
    assert(included_seq.take(0) =~= Seq::<ReleasePullRequest>::empty());
    assert(release_views(sorted@) =~= release_views(included_seq.take(0)));
    while rest.len() > 0
        invariant
            i + rest@.len() == included_seq.len(),
            included_seq.len() == total,
            rest@ == included_seq.skip(i as int),
            release_prs_sorted(sorted@),
            release_views(sorted@).to_multiset() == release_views(included_seq.take(i as int)).to_multiset(),
        decreases rest@.len(),
    {
        let x = rest.remove(0);
        proof {
            assert(x == included_seq[i as int]);
            assert(included_seq.take(i + 1) =~= included_seq.take(i as int).push(x));
            assert(release_views(included_seq.take(i + 1)) =~= release_views(included_seq.take(i as int)).push(release_pr_view(x)));
            to_multiset_build(release_views(included_seq.take(i as int)), release_pr_view(x));
        }
        insert_release_pr(&mut sorted, x);
        i = i + 1;
        assert(rest@ =~= included_seq.skip(i as int));
    }
    assert(included_seq.take(i as int) =~= included_seq);
    Ok(PreparedRelease { base_tag, included_prs: sorted, skipped_prs: skipped, highest_release: highest })
}

/// Prepare a release from the pull requests found for the commits since
/// `base_tag`, in the order they were found, with the names shown for their
/// authors. The candidates are the merged, not generated pull requests, one
/// per number; each needs exactly one release label. Those marked
/// `release:none` are skipped, the others are included, ordered by merge time
/// and number, and the highest label is kept.
pub fn prepare_release(base_tag: Option<String>, found: Vec<AssociatedPullRequest>, names: &[AuthorName]) -> (r: Result<PreparedRelease, ToolError>)
    ensures
        exists|c: Seq<AssociatedPullRequest>| #[trigger] is_candidate_list(found@, c) && prepare_outcome(r, base_tag, c, names@),
{
    let ghost found_view = found@;
    let ghost tag = base_tag;
    let c = collect_release_candidates(found);
    let r = prepare_from_candidates(base_tag, &c, names);
    assert(is_candidate_list(found_view, c@) && prepare_outcome(r, tag, c@, names@));
    r
}


/// Strictly increasing sequences with the same members are equal.
proof fn lemma_increasing_same_members(x: Seq<u64>, y: Seq<u64>)
    requires
        forall|a: int, b: int| 0 <= a < b < x.len() ==> #[trigger] x[a] < #[trigger] x[b],
        forall|a: int, b: int| 0 <= a < b < y.len() ==> #[trigger] y[a] < #[trigger] y[b],
        forall|k: int| 0 <= k < x.len() ==> y.contains(#[trigger] x[k]),
        forall|k: int| 0 <= k < y.len() ==> x.contains(#[trigger] y[k]),
    ensures
        x == y,
    decreases x.len(),
{
    if x.len() == 0 {
        if y.len() > 0 {
            assert(x.contains(y[0]));
        }
        assert(x =~= y);
    } else {
        if y.len() == 0 {
            assert(y.contains(x[0]));
        }
        assert(x.contains(y[0]));
        assert(y.contains(x[0]));
        let i = choose|i: int| 0 <= i < x.len() && x[i] == y[0];
        let j = choose|j: int| 0 <= j < y.len() && y[j] == x[0];
        if i > 0 {
            assert(x[0] < x[i]);
        }
        if j > 0 {
            assert(y[0] < y[j]);
        }
        assert(x[0] == y[0]);
        let x1 = x.drop_first();
        let y1 = y.drop_first();
        assert forall|k: int| 0 <= k < x1.len() implies y1.contains(#[trigger] x1[k]) by {
            assert(x1[k] == x[k + 1]);
            assert(y.contains(x[k + 1]));
            let m = choose|m: int| 0 <= m < y.len() && y[m] == x[k + 1];
            assert(x[0] < x[k + 1]);
            assert(m != 0);
            assert(y1[m - 1] == x1[k]);
        }
        assert forall|k: int| 0 <= k < y1.len() implies x1.contains(#[trigger] y1[k]) by {
            assert(y1[k] == y[k + 1]);
            assert(x.contains(y[k + 1]));
            let m = choose|m: int| 0 <= m < x.len() && x[m] == y[k + 1];
            assert(y[0] < y[k + 1]);
            assert(m != 0);
            assert(x1[m - 1] == y1[k]);
        }
        assert forall|a: int, b: int| 0 <= a < b < x1.len() implies #[trigger] x1[a] < #[trigger] x1[b] by {
            assert(x[a + 1] < x[b + 1]);
        }
        assert forall|a: int, b: int| 0 <= a < b < y1.len() implies #[trigger] y1[a] < #[trigger] y1[b] by {
            assert(y[a + 1] < y[b + 1]);
        }
        lemma_increasing_same_members(x1, y1);
        assert(x =~= seq![x[0]] + x1);
        assert(y =~= seq![y[0]] + y1);
    }
}

/// The numbers of a candidate list, in order.
pub open spec fn candidate_numbers(c: Seq<AssociatedPullRequest>) -> Seq<u64> {
    c.map_values(|pr: AssociatedPullRequest| pr.number)
}

/// One number of a candidate list is a number of another of the same found
/// pull requests.
proof fn lemma_candidate_number_in(
    found: Seq<AssociatedPullRequest>,
    c1: Seq<AssociatedPullRequest>,
    c2: Seq<AssociatedPullRequest>,
    k: int,
)
    requires
        firsts_of_numbers(found, c1),
        covers_eligible(found, c2),
        0 <= k < c1.len(),
    ensures
        candidate_numbers(c2).contains(candidate_numbers(c1)[k]),
{
    reveal(firsts_of_numbers);
    assert(exists|i: int| first_eligible(found, (#[trigger] c1[k]).number, i) && c1[k] == found[i]);
    let i = choose|i: int| first_eligible(found, c1[k].number, i) && c1[k] == found[i];
    assert(is_eligible(found[i]));
    reveal(covers_eligible);
    assert(exists|m: int| 0 <= m < c2.len() && (#[trigger] c2[m]).number == found[i].number);
    let m = choose|m: int| 0 <= m < c2.len() && (#[trigger] c2[m]).number == found[i].number;
    assert(candidate_numbers(c2)[m] == candidate_numbers(c1)[k]);
}

/// Every number of one candidate list is a number of another of the same
/// found pull requests.
proof fn lemma_candidate_numbers_shared(
    found: Seq<AssociatedPullRequest>,
    c1: Seq<AssociatedPullRequest>,
    c2: Seq<AssociatedPullRequest>,
)
    requires
        firsts_of_numbers(found, c1),
        covers_eligible(found, c2),
    ensures
        forall|k: int| 0 <= k < c1.len() ==> candidate_numbers(c2).contains(#[trigger] candidate_numbers(c1)[k]),
{
    assert forall|k: int| 0 <= k < c1.len() implies candidate_numbers(c2).contains(
        #[trigger] candidate_numbers(c1)[k],
    ) by {
        lemma_candidate_number_in(found, c1, c2, k);
    }
}

/// Candidate numbers increase along the list.
proof fn lemma_candidate_numbers_increase(c: Seq<AssociatedPullRequest>)
    requires
        numbers_increase(c),
    ensures
        forall|a: int, b: int|
            0 <= a < b < c.len() ==> #[trigger] candidate_numbers(c)[a] < #[trigger] candidate_numbers(c)[b],
{
    reveal(numbers_increase);
    let x = candidate_numbers(c);
    assert forall|a: int, b: int| 0 <= a < b < x.len() implies #[trigger] x[a] < #[trigger] x[b] by {
        assert(c[a].number < c[b].number);
    }
}

/// Two candidates with one number are the same pull request.
proof fn lemma_candidate_same_number(
    found: Seq<AssociatedPullRequest>,
    c1: Seq<AssociatedPullRequest>,
    c2: Seq<AssociatedPullRequest>,
    k: int,
)
    requires
        firsts_of_numbers(found, c1),
        firsts_of_numbers(found, c2),
        0 <= k < c1.len(),
        k < c2.len(),
        c1[k].number == c2[k].number,
    ensures
        c1[k] == c2[k],
{
    reveal(firsts_of_numbers);
    let n = c1[k].number;
    assert(exists|i: int| first_eligible(found, (#[trigger] c1[k]).number, i) && c1[k] == found[i]);
    assert(exists|i: int| first_eligible(found, (#[trigger] c2[k]).number, i) && c2[k] == found[i]);
    let i1 = choose|i: int| first_eligible(found, c1[k].number, i) && c1[k] == found[i];
    let i2 = choose|i: int| first_eligible(found, c2[k].number, i) && c2[k] == found[i];
    if i1 < i2 {
        assert(!(is_eligible(found[i1]) && found[i1].number == n));
    } else if i2 < i1 {
        assert(!(is_eligible(found[i2]) && found[i2].number == n));
    }
}

/// Two lists with the properties of candidate lists of one set of found pull
/// requests are equal.
proof fn lemma_candidates_equal(
    found: Seq<AssociatedPullRequest>,
    c1: Seq<AssociatedPullRequest>,
    c2: Seq<AssociatedPullRequest>,
)
    requires
        numbers_increase(c1),
        numbers_increase(c2),
        firsts_of_numbers(found, c1),
        firsts_of_numbers(found, c2),
        covers_eligible(found, c1),
        covers_eligible(found, c2),
    ensures
        c1 == c2,
{
    lemma_candidate_numbers_shared(found, c1, c2);
    lemma_candidate_numbers_shared(found, c2, c1);
    lemma_candidate_numbers_increase(c1);
    lemma_candidate_numbers_increase(c2);
    lemma_increasing_same_members(candidate_numbers(c1), candidate_numbers(c2));
    assert forall|k: int| 0 <= k < c1.len() implies c1[k] == c2[k] by {
        assert(candidate_numbers(c1)[k] == candidate_numbers(c2)[k]);
        lemma_candidate_same_number(found, c1, c2, k);
    }
    assert(c1 =~= c2);
}

/// The candidates of a release are determined by the pull requests found:
/// two candidate lists of the same found pull requests are equal, so the
/// candidates that `collect_release_candidates` and `prepare_release` speak
/// of are one list.
pub proof fn lemma_candidate_list_unique(
    found: Seq<AssociatedPullRequest>,
    c1: Seq<AssociatedPullRequest>,
    c2: Seq<AssociatedPullRequest>,
)
    requires
        is_candidate_list(found, c1),
        is_candidate_list(found, c2),
    ensures
        c1 == c2,
{
    lemma_candidates_equal(found, c1, c2);
}

} // verus!
