use jj_navi::release::changelog::{build_changelog_section, prepend_changelog, release_notes};
use jj_navi::release::github::{
    is_generated_release_pr, parse_release_label, render_changelog_section, GithubLabel, ReleaseKind,
    ReleasePullRequest, RELEASE_NONE_LABEL,
};
use jj_navi::release::version::{ensure_version_matches_release, parse_version};
use jj_navi::release::{PullRequestMetadata, ReleaseAuthor, ReleaseLabel};

fn pr(number: u64, release: ReleaseLabel, title: &str, merged_at: &str) -> PullRequestMetadata {
    PullRequestMetadata {
        number,
        title: title.to_owned(),
        author: ReleaseAuthor { login: format!("user-{number}"), display_name: format!("@user-{number}") },
        merged_at: merged_at.to_owned(),
        merge_commit_sha: format!("sha-{number}"),
        release,
    }
}

fn label(name: &str) -> GithubLabel {
    GithubLabel { name: name.to_owned() }
}

#[test]
fn builds_changelog_grouped_by_release_label() {
    let section = build_changelog_section(
        "1.2.3",
        "2026-03-13",
        &[
            pr(10, ReleaseLabel::Patch, "fix workspace switching", "2026-03-13T10:00:00Z"),
            pr(11, ReleaseLabel::Major, "rewrite config layout", "2026-03-13T11:00:00Z"),
            pr(12, ReleaseLabel::Minor, "add doctor command", "2026-03-13T12:00:00Z"),
        ],
    )
    .expect("build changelog");

    assert!(section.contains("## v1.2.3 - 2026-03-13"));
    assert!(section.contains("### Major\n\n- rewrite config layout (#11, @user-11)"));
    assert!(section.contains("### Minor\n\n- add doctor command (#12, @user-12)"));
    assert!(section.contains("### Patch\n\n- fix workspace switching (#10, @user-10)"));
}

#[test]
fn validates_releasable_pr_labels() {
    let release = parse_release_label(7, "add richer list output", &[label("release:minor")]).expect("label");

    assert_eq!(release, ReleaseKind::Minor);
}

#[test]
fn rejects_multiple_release_labels() {
    let error = parse_release_label(7, "add richer list output", &[label("release:minor"), label("release:patch")])
        .expect_err("multiple release labels should fail");

    assert!(error.describe().contains("exactly one release label"));
}

#[test]
fn allows_release_none() {
    let release = parse_release_label(9, "docs cleanup", &[label(RELEASE_NONE_LABEL)]).expect("release:none label");

    assert_eq!(release, ReleaseKind::NoRelease);
}

#[test]
fn detects_generated_release_pr_marker() {
    assert!(is_generated_release_pr(Some("intro\n<!-- navi-release:release-pr -->\noutro")));
    assert!(!is_generated_release_pr(Some("normal body")));
    assert!(!is_generated_release_pr(None));
}

#[test]
fn renders_author_name_and_pr_link_in_changelog() {
    let section = render_changelog_section(
        "1.2.3",
        "2026-03-13",
        &[ReleasePullRequest {
            number: 12,
            title: "add richer list output".to_owned(),
            url: "https://github.com/example/repo/pull/12".to_owned(),
            author_display: "E. Ersnington".to_owned(),
            release: ReleaseKind::Patch,
            merged_at: String::new(),
        }],
    );

    assert!(section.contains("[#12](https://github.com/example/repo/pull/12), E. Ersnington"));
}

#[test]
fn rejects_wrong_bump_kind() {
    let current = parse_version("0.1.0").expect("current");
    let target = parse_version("0.1.1").expect("target");
    let error = ensure_version_matches_release(&current, &target, ReleaseKind::Minor)
        .expect_err("patch should not satisfy minor");

    assert!(error.describe().contains("suggested: 0.2.0"));
}

#[test]
fn accepts_matching_bump_kind() {
    let current = parse_version("0.1.0").expect("current");
    let target = parse_version("0.2.0").expect("target");

    ensure_version_matches_release(&current, &target, ReleaseKind::Minor).expect("minor bump should pass");
}

#[test]
fn notes_after_prepare_give_back_the_new_section() {
    let prs = vec![
        pr(7, ReleaseLabel::Minor, "Add merge preview", "2026-04-01T10:00:00Z"),
        pr(8, ReleaseLabel::Patch, "Fix list width", "2026-04-02T10:00:00Z"),
    ];
    let current = "# Changelog\n\nAll notable changes to `jj-navi` live here.\n\n## v1.2.3 - 2026-03-13\n\n### Patch\n\n- Old fix (#1, alice)\n";
    let updated = prepend_changelog(current, "1.3.0", "2026-04-03", &prs).expect("prepend");
    let section = build_changelog_section("1.3.0", "2026-04-03", &prs).expect("section");
    assert_eq!(release_notes(&updated, "1.3.0").expect("notes"), format!("{section}\n"));
    assert_eq!(
        release_notes(&updated, "1.2.3").expect("old notes"),
        "## v1.2.3 - 2026-03-13\n\n### Patch\n\n- Old fix (#1, alice)\n"
    );
}

#[test]
fn notes_after_first_prepare_give_back_the_section() {
    let prs = vec![pr(3, ReleaseLabel::Major, "Rename switch flags", "2026-01-01T00:00:00Z")];
    let updated = prepend_changelog("# Changelog\n", "2.0.0", "2026-01-02", &prs).expect("prepend");
    let section = build_changelog_section("2.0.0", "2026-01-02", &prs).expect("section");
    assert_eq!(updated, format!("# Changelog\n\n{section}\n"));
    assert_eq!(release_notes(&updated, "2.0.0").expect("notes"), format!("{section}\n"));
}
