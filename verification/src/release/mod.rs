//! Release preparation: pull-request metadata, changelog sections, release
//! labels and version bumps.


pub mod changelog;
pub mod cli;
pub mod error;
pub mod github;
pub mod project;
pub mod version;



use vstd::prelude::*;

use vstd::string::*;

use vstd::seq_lib::*;

use crate::doctor::{chars_order, compare_strings, lemma_chars_order};
use crate::text::{decimal, push_decimal, trim, trim_ws};
use self::error::ToolError;

verus! {

/// Release label of a merged pull request.
#[derive(Debug, Clone, Copy, PartialEq, Eq, Structural)]
pub enum ReleaseLabel {
    /// Breaking change.
    Major,
    /// New feature.
    Minor,
    /// Fix.
    Patch,
    /// Not user facing.
    NoRelease,
}

impl ReleaseLabel {
    /// The changelog heading of a user-facing label.
    pub open spec fn spec_heading(self) -> Option<Seq<char>> {
        match self {
            ReleaseLabel::Major => Some("Major"@),
            ReleaseLabel::Minor => Some("Minor"@),
            ReleaseLabel::Patch => Some("Patch"@),
            ReleaseLabel::NoRelease => None,
        }
    }

    /// Changelog heading, for user-facing labels.
    pub fn heading(self) -> (r: Option<&'static str>)
        ensures
            match r {
                Some(h) => self.spec_heading() == Some(h@),
                None => self.spec_heading() is None,
            },
    {
        match self {
            ReleaseLabel::Major => Some("Major"),
            ReleaseLabel::Minor => Some("Minor"),
            ReleaseLabel::Patch => Some("Patch"),
            ReleaseLabel::NoRelease => None,
        }
    }

    /// Whether the label puts the change in the changelog.
    pub fn is_user_facing(self) -> (r: bool)
        ensures
            r == (self != ReleaseLabel::NoRelease),
    {
        match self {
            ReleaseLabel::NoRelease => false,
            _ => true,
        }
    }
}

/// Author of a pull request.
#[derive(Debug, PartialEq, Eq)]
pub struct ReleaseAuthor {
    /// GitHub login.
    pub login: String,
    /// Display name, possibly blank.
    pub display_name: String,
}

/// The name shown for an author: the trimmed display name, or the trimmed
/// login when the display name is blank.
pub open spec fn changelog_name_of(login: Seq<char>, display_name: Seq<char>) -> Seq<char> {
    if trim_ws(display_name).len() == 0 {
        trim_ws(login)
    } else {
        trim_ws(display_name)
    }
}

impl ReleaseAuthor {
    /// The name shown in the changelog.
    pub fn changelog_name(&self) -> (r: String)
        ensures
            r@ == changelog_name_of(self.login@, self.display_name@),
    {
        let display = trim(self.display_name.as_str());
        if display.as_str().unicode_len() == 0 {
            proof {
                assert(display@.len() == 0);
            }
            trim(self.login.as_str())
        } else {
            proof {
                assert(display@.len() != 0);
            }
            display
        }
    }
}

impl Clone for ReleaseAuthor {
    fn clone(&self) -> (r: Self)
        ensures
            r == *self,
    {
        ReleaseAuthor { login: self.login.clone(), display_name: self.display_name.clone() }
    }
}

/// Metadata of a merged pull request that goes into a release.
#[derive(Debug, PartialEq, Eq)]
pub struct PullRequestMetadata {
    /// Pull request number.
    pub number: u64,
    /// Title.
    pub title: String,
    /// Author.
    pub author: ReleaseAuthor,
    /// Merge time, RFC 3339.
    pub merged_at: String,
    /// Merge commit.
    pub merge_commit_sha: String,
    /// Release label.
    pub release: ReleaseLabel,
}

impl Clone for PullRequestMetadata {
    fn clone(&self) -> (r: Self)
        ensures
            r == *self,
    {
        PullRequestMetadata {
            number: self.number,
            title: self.title.clone(),
            author: self.author.clone(),
            merged_at: self.merged_at.clone(),
            merge_commit_sha: self.merge_commit_sha.clone(),
            release: self.release,
        }
    }
}

/// The release input file.
#[derive(Debug, PartialEq, Eq)]
pub struct ReleaseInput {
    /// Schema version.
    pub schema: u32,
    /// Tag of the previous release.
    pub previous_tag: Option<String>,
    /// Pull requests of the release.
    pub prs: Vec<PullRequestMetadata>,
}

/// `text` followed by `#` and the number.
pub open spec fn with_number(text: Seq<char>, number: u64) -> Seq<char> {
    text + "#"@ + decimal(number as nat)
}

/// What is wrong with the pull request at `i`, if anything, in the order the
/// checks are made.
pub open spec fn pr_issue(prs: Seq<PullRequestMetadata>, i: int, allow_release_none: bool) -> Option<Seq<char>> {
    let pr = prs[i];
    if exists|j: int| 0 <= j < i && (#[trigger] prs[j]).number == pr.number {
        Some(with_number("duplicate PR in release metadata: "@, pr.number))
    } else if trim_ws(pr.title@).len() == 0 {
        Some(with_number("release metadata title missing for "@, pr.number))
    } else if trim_ws(pr.author.login@).len() == 0 {
        Some(with_number("release metadata author login missing for "@, pr.number))
    } else if trim_ws(pr.merged_at@).len() == 0 {
        Some(with_number("release metadata mergedAt missing for "@, pr.number))
    } else if trim_ws(pr.merge_commit_sha@).len() == 0 {
        Some(with_number("release metadata mergeCommitSha missing for "@, pr.number))
    } else if !allow_release_none && pr.release == ReleaseLabel::NoRelease {
        Some(with_number("release changelog must exclude release:none PR "@, pr.number))
    } else {
        None
    }
}

/// The first problem among the pull requests from `i` on.
pub open spec fn first_pr_issue(prs: Seq<PullRequestMetadata>, i: int, allow_release_none: bool) -> Option<Seq<char>>
    decreases prs.len() - i,
{
    if i < 0 || i >= prs.len() {
        None
    } else {
        match pr_issue(prs, i, allow_release_none) {
            Some(m) => Some(m),
            None => first_pr_issue(prs, i + 1, allow_release_none),
        }
    }
}

/// Why a list of pull requests is not valid release metadata, if it is not.
pub open spec fn pull_requests_problem(prs: Seq<PullRequestMetadata>, allow_release_none: bool) -> Option<Seq<char>> {
    if prs.len() == 0 {
        Some("release metadata must include PRs"@)
    } else {
        first_pr_issue(prs, 0, allow_release_none)
    }
}

/// The error value for a validation outcome.
pub open spec fn validation_outcome(r: Result<(), ToolError>, problem: Option<Seq<char>>) -> bool {
    match problem {
        None => r is Ok,
        Some(m) => r matches Err(ToolError::Message(e)) && e@ == m,
    }
}

fn message_with_number(text: &str, number: u64) -> (r: ToolError)
    ensures
        r matches ToolError::Message(m) && m@ == with_number(text@, number),
{
    let mut m = String::new();
    m.append(text);
    m.append("#");
    push_decimal(&mut m, number);
    ToolError::Message(m)
}

fn is_blank_text(s: &str) -> (r: bool)
    ensures
        r == (trim_ws(s@).len() == 0),
{
    let t = trim(s);
    t.as_str().unicode_len() == 0
}

/// Check one pull request against those before it.
fn check_pr(prs: &[PullRequestMetadata], i: usize, allow_release_none: bool) -> (r: Result<(), ToolError>)
    requires
        i < prs@.len(),
    ensures
        validation_outcome(r, pr_issue(prs@, i as int, allow_release_none)),
{
    let pr = &prs[i];
    let mut j: usize = 0;
    while j < i
        invariant
            i < prs@.len(),
            j <= i,
            pr == prs@[i as int],
            forall|k: int| 0 <= k < j ==> (#[trigger] prs@[k]).number != pr.number,
        decreases i - j,
    {
        if prs[j].number == pr.number {
            return Err(message_with_number("duplicate PR in release metadata: ", pr.number));
        }
        j += 1;
    }
    if is_blank_text(pr.title.as_str()) {
        return Err(message_with_number("release metadata title missing for ", pr.number));
    }
    if is_blank_text(pr.author.login.as_str()) {
        return Err(message_with_number("release metadata author login missing for ", pr.number));
    }
    if is_blank_text(pr.merged_at.as_str()) {
        return Err(message_with_number("release metadata mergedAt missing for ", pr.number));
    }
    if is_blank_text(pr.merge_commit_sha.as_str()) {
        return Err(message_with_number("release metadata mergeCommitSha missing for ", pr.number));
    }
    if !allow_release_none && !pr.release.is_user_facing() {
        return Err(message_with_number("release changelog must exclude release:none PR ", pr.number));
    }
    Ok(())
}

/// Check release metadata: at least one pull request, no number twice, no
/// blank title, login, merge time or merge commit, and, unless allowed, no
/// `release:none` pull request. The first problem found is reported.
pub fn validate_pull_requests(prs: &[PullRequestMetadata], allow_release_none: bool) -> (r: Result<(), ToolError>)
    ensures
        validation_outcome(r, pull_requests_problem(prs@, allow_release_none)),
{
    if prs.len() == 0 {
        return Err(ToolError::message("release metadata must include PRs"));
    }
    let mut i: usize = 0;
    while i < prs.len()
        invariant
            i <= prs@.len(),
            prs@.len() > 0,
            first_pr_issue(prs@, 0, allow_release_none) == first_pr_issue(prs@, i as int, allow_release_none),
        decreases prs@.len() - i,
    {
        let checked = check_pr(prs, i, allow_release_none);
        if checked.is_err() {
            return checked;
        }
        i += 1;
    }
    Ok(())
}

/// The schema version that release input files carry.
pub const RELEASE_INPUT_SCHEMA: u32 = 1;

/// Validate a release input file: its schema, then its pull requests, of
/// which `release:none` ones are allowed.
pub fn validate_release_input(input: &ReleaseInput) -> (r: Result<(), ToolError>)
    ensures
        input.schema != 1 ==> (r matches Err(ToolError::Message(m)) && m@
            == "release input schema mismatch: expected 1, got "@ + decimal(input.schema as nat)),
        input.schema == 1 ==> validation_outcome(r, pull_requests_problem(input.prs@, true)),
{
    if input.schema != RELEASE_INPUT_SCHEMA {
        let mut m = String::new();
        m.append("release input schema mismatch: expected 1, got ");
        push_decimal(&mut m, input.schema as u64);
        return Err(ToolError::Message(m));
    }
    validate_pull_requests(input.prs.as_slice(), true)
}

/// Validate the pull requests of a changelog section, where `release:none`
/// ones are not allowed.
pub fn validate_changelog_prs(prs: &[PullRequestMetadata]) -> (r: Result<(), ToolError>)
    ensures
        validation_outcome(r, pull_requests_problem(prs@, false)),
{
    validate_pull_requests(prs, false)
}


/// The order pull requests are listed in: merge time, then number.
pub open spec fn pr_order(a: PullRequestMetadata, b: PullRequestMetadata) -> int {
    if chars_order(a.merged_at@, b.merged_at@) != 0 {
        chars_order(a.merged_at@, b.merged_at@)
    } else if a.number < b.number {
        -1
    } else if a.number > b.number {
        1
    } else {
        0
    }
}

/// `pr_order` is antisymmetric and transitive.
pub proof fn lemma_pr_order(a: PullRequestMetadata, b: PullRequestMetadata, c: PullRequestMetadata)
    ensures
        pr_order(a, b) == -pr_order(b, a),
        pr_order(a, b) <= 0 && pr_order(b, c) <= 0 ==> pr_order(a, c) <= 0,
{
    lemma_chars_order(a.merged_at@, b.merged_at@, c.merged_at@);
    lemma_chars_order(b.merged_at@, a.merged_at@, c.merged_at@);
    lemma_chars_order(a.merged_at@, c.merged_at@, b.merged_at@);
}

/// Pull requests in merge order.
pub open spec fn prs_sorted(s: Seq<PullRequestMetadata>) -> bool {
    forall|i: int, j: int| 0 <= i < j < s.len() ==> pr_order(#[trigger] s[i], #[trigger] s[j]) <= 0
}

fn compare_prs(a: &PullRequestMetadata, b: &PullRequestMetadata) -> (r: i8)
    ensures
        r == pr_order(*a, *b),
{
    let c = compare_strings(a.merged_at.as_str(), b.merged_at.as_str());
    if c != 0 {
        c
    } else if a.number < b.number {
        -1
    } else if a.number > b.number {
        1
    } else {
        0
    }
}

/// Insert `x` into sorted `out` after every pull request that does not come
/// after it.
fn insert_pr_sorted(out: &mut Vec<PullRequestMetadata>, x: PullRequestMetadata)
    requires
        prs_sorted(old(out)@),
    ensures
        prs_sorted(final(out)@),
        final(out)@.to_multiset() == old(out)@.to_multiset().insert(x),
{
    let mut j = out.len();
    while j > 0 && compare_prs(&out[j - 1], &x) > 0
        invariant
            j <= out.len(),
            forall|k: int| j <= k < out.len() ==> pr_order(#[trigger] out@[k], x) > 0,
        decreases j,
    {
        j -= 1;
    }
    let ghost before = out@;
    proof {
        assert forall|k: int| 0 <= k < j implies pr_order(#[trigger] before[k], x) <= 0 by {
            lemma_pr_order(before[k], before[j - 1], x);
        }
        assert forall|k: int| j <= k < before.len() implies pr_order(x, #[trigger] before[k]) <= 0 by {
            lemma_pr_order(before[k], x, x);
        }
        to_multiset_insert(before, j as int, x);
    }
    out.insert(j, x);
    assert(out@ == before.insert(j as int, x));
    assert forall|a: int, b: int| 0 <= a < b < out@.len() implies pr_order(
        #[trigger] out@[a],
        #[trigger] out@[b],
    ) <= 0 by {
        if a < j && b > j {
            assert(out@[a] == before[a]);
            assert(out@[b] == before[b - 1]);
        } else if b < j {
        } else if a > j {
            assert(out@[a] == before[a - 1]);
            assert(out@[b] == before[b - 1]);
        }
    }
}

/// Order pull requests by merge time, then number.
pub fn sort_pull_requests(prs: &mut Vec<PullRequestMetadata>)
    ensures
        prs_sorted(final(prs)@),
        final(prs)@.to_multiset() == old(prs)@.to_multiset(),
{
    let mut input: Vec<PullRequestMetadata> = Vec::new();
    std::mem::swap(&mut input, prs);
    let ghost given = input@;
    let mut out: Vec<PullRequestMetadata> = Vec::new();
    let mut i: usize = 0;
    proof {
        assert(given.take(0) =~= Seq::<PullRequestMetadata>::empty());
    }
    while i < input.len()
        invariant
            input@ == given,
            i <= input.len(),
            prs_sorted(out@),
            out@.to_multiset() == given.take(i as int).to_multiset(),
        decreases input.len() - i,
    {
        let x = input[i].clone();
        proof {
            assert(given.take(i + 1) =~= given.take(i as int).push(given[i as int]));
            to_multiset_build(given.take(i as int), given[i as int]);
        }
        insert_pr_sorted(&mut out, x);
        i += 1;
    }
    proof {
        assert(given.take(i as int) =~= given);
    }
    *prs = out;
}


/// No two pull requests share a number.
pub open spec fn numbers_distinct(s: Seq<PullRequestMetadata>) -> bool {
    forall|i: int, j: int| 0 <= i < j < s.len() ==> (#[trigger] s[i]).number != (#[trigger] s[j]).number
}

/// From a position without problem on, no later pull request has one.
proof fn lemma_no_issue_from(prs: Seq<PullRequestMetadata>, k: int, allow_release_none: bool)
    requires
        0 <= k,
        first_pr_issue(prs, k, allow_release_none) is None,
    ensures
        forall|i: int| k <= i < prs.len() ==> #[trigger] pr_issue(prs, i, allow_release_none) is None,
    decreases prs.len() - k,
{
    if k < prs.len() {
        lemma_no_issue_from(prs, k + 1, allow_release_none);
    }
}

/// Valid release metadata lists no number twice.
pub proof fn lemma_valid_prs_distinct(prs: Seq<PullRequestMetadata>, allow_release_none: bool)
    requires
        pull_requests_problem(prs, allow_release_none) is None,
    ensures
        numbers_distinct(prs),
{
    lemma_no_issue_from(prs, 0, allow_release_none);
    assert forall|i: int, j: int| 0 <= i < j < prs.len() implies (#[trigger] prs[i]).number != (
    #[trigger] prs[j]).number by {
        assert(pr_issue(prs, j, allow_release_none) is None);
    }
}

/// Any arrangement of pull requests with distinct numbers has distinct
/// numbers.
proof fn lemma_distinct_permutation(p: Seq<PullRequestMetadata>, s: Seq<PullRequestMetadata>)
    requires
        numbers_distinct(p),
        s.to_multiset() == p.to_multiset(),
    ensures
        numbers_distinct(s),
{
    broadcast use group_to_multiset_ensures;

    assert(p.no_duplicates()) by {
        assert forall|i: int, j: int| 0 <= i < p.len() && 0 <= j < p.len() && i != j implies p[i] != p[j] by {
            if i < j {
                assert(p[i].number != p[j].number);
            } else {
                assert(p[j].number != p[i].number);
            }
        }
    }
    p.lemma_multiset_has_no_duplicates();
    s.lemma_multiset_has_no_duplicates_conv();
    assert forall|i: int, j: int| 0 <= i < j < s.len() implies (#[trigger] s[i]).number != (
    #[trigger] s[j]).number by {
        assert(s.contains(s[i]));
        assert(s.contains(s[j]));
        assert(s.to_multiset().count(s[i]) > 0);
        assert(s.to_multiset().count(s[j]) > 0);
        assert(p.contains(s[i]));
        assert(p.contains(s[j]));
        let a = choose|a: int| 0 <= a < p.len() && p[a] == s[i];
        let b = choose|b: int| 0 <= b < p.len() && p[b] == s[j];
        assert(s[i] != s[j]);
        if a < b {
            assert(p[a].number != p[b].number);
        } else if b < a {
            assert(p[b].number != p[a].number);
        }
    }
}

/// Two sorted arrangements of the same pull requests, whose numbers are
/// distinct, are the same sequence.
proof fn lemma_sorted_arrangements_equal(s1: Seq<PullRequestMetadata>, s2: Seq<PullRequestMetadata>)
    requires
        prs_sorted(s1),
        prs_sorted(s2),
        s1.to_multiset() == s2.to_multiset(),
        numbers_distinct(s1),
    ensures
        s1 == s2,
    decreases s1.len(),
{
    broadcast use group_to_multiset_ensures;

    to_multiset_len(s1);
    to_multiset_len(s2);
    if s1.len() == 0 {
        assert(s1 =~= s2);
    } else {
        let a = s1[0];
        let b = s2[0];
        assert(s2.contains(b));
        assert(s2.to_multiset().count(b) > 0);
        assert(s1.contains(b));
        assert(s1.to_multiset().count(a) > 0);
        assert(s2.contains(a));
        let j = choose|j: int| 0 <= j < s1.len() && s1[j] == b;
        let k = choose|k: int| 0 <= k < s2.len() && s2[k] == a;
        if j > 0 {
            assert(pr_order(s1[0], s1[j]) <= 0);
        }
        if k > 0 {
            assert(pr_order(s2[0], s2[k]) <= 0);
        }
        lemma_pr_order(a, b, a);
        assert(pr_order(a, b) == 0);
        assert(a.number == b.number);
        if j > 0 {
            assert(s1[0].number != s1[j].number);
        }
        assert(a == b);
        to_multiset_remove(s1, 0);
        to_multiset_remove(s2, 0);
        assert(s1.remove(0) =~= s1.drop_first());
        assert(s2.remove(0) =~= s2.drop_first());
        assert(numbers_distinct(s1.drop_first())) by {
            assert forall|x: int, y: int| 0 <= x < y < s1.drop_first().len() implies (
            #[trigger] s1.drop_first()[x]).number != (#[trigger] s1.drop_first()[y]).number by {
                assert(s1[x + 1].number != s1[y + 1].number);
            }
        }
        lemma_sorted_arrangements_equal(s1.drop_first(), s2.drop_first());
        assert(s1 =~= seq![a] + s1.drop_first());
        assert(s2 =~= seq![b] + s2.drop_first());
    }
}

/// Valid release metadata has one order by merge time then number: two
/// sorted arrangements of its pull requests are the same sequence, so
/// sorting it gives one result.
pub proof fn lemma_sorted_prs_unique(
    prs: Seq<PullRequestMetadata>,
    allow_release_none: bool,
    s1: Seq<PullRequestMetadata>,
    s2: Seq<PullRequestMetadata>,
)
    requires
        pull_requests_problem(prs, allow_release_none) is None,
        prs_sorted(s1),
        prs_sorted(s2),
        s1.to_multiset() == prs.to_multiset(),
        s2.to_multiset() == prs.to_multiset(),
    ensures
        s1 == s2,
{
    lemma_valid_prs_distinct(prs, allow_release_none);
    lemma_distinct_permutation(prs, s1);
    lemma_sorted_arrangements_equal(s1, s2);
}

} // verus!
