use jj_navi::doctor::{DoctorFindingCode, DoctorSeverity};
use jj_navi::error::Error;
use jj_navi::release::changelog::{prepend_changelog, release_notes};
use jj_navi::release::version::{compare_versions, parse_version};
use jj_navi::release::{PullRequestMetadata, ReleaseAuthor, ReleaseLabel};
use jj_navi::repo::config::{repo_config_path, workspace_metadata_path};
use jj_navi::repo::jj::{
    current_workspace_name, ensure_supported_version, format_command, meaningful_stderr, parse_diff_stat,
    parse_jj_version, parse_workspace_list,
};
use jj_navi::repo::metadata::{format_rfc3339_text, parse_record_file, record_file_of, WorkspaceMetadataRecordFile};
use jj_navi::repo::paths::{derive_repo_name, display_path_for_list, planned_workspace_root};
use jj_navi::shell_doctor::{shell_doctor_findings, shell_doctor_plan, RcProbe, ShellDoctorPlan};
use jj_navi::shell::{MANAGED_BLOCK_END, MANAGED_BLOCK_START};
use jj_navi::text::trim;
use jj_navi::table::render_age;
use jj_navi::types::{elapsed_whole_seconds, ShellKind, Timestamp, WorkspaceDiffStatus, WorkspaceName, WorkspaceTemplate};

fn name(text: &str) -> WorkspaceName {
    WorkspaceName::new(text).expect("valid workspace")
}

#[test]
fn reads_workspace_list_lines() {
    let output = "default\u{0}1\u{0}abc123\u{0}xyz\u{0}first line\n\nfeature\u{0}0\u{0}def456\u{0}uvw\u{0}\n";
    let entries = parse_workspace_list(output).expect("parse list");
    assert_eq!(entries.len(), 2);
    assert_eq!(entries[0].name.as_str(), "default");
    assert!(entries[0].is_current);
    assert_eq!(entries[0].message, "first line");
    assert_eq!(entries[1].commit_id, "def456");
    assert!(!entries[1].is_current);
    assert!(matches!(
        parse_workspace_list("default\u{0}2\u{0}a\u{0}b\u{0}c\n"),
        Err(Error::InvalidJjWorkspaceListEntry(_))
    ));
    assert!(matches!(
        parse_workspace_list("bad name\u{0}1\u{0}a\u{0}b\u{0}c\n"),
        Err(Error::InvalidWorkspaceName(_))
    ));
}

#[test]
fn reads_current_workspace_name() {
    assert_eq!(current_workspace_name("feature\n").expect("name").as_str(), "feature");
}

#[test]
fn checks_the_jj_version() {
    let version = parse_jj_version("jj 0.39.2-abcdef\n").expect("version");
    assert_eq!((version.major, version.minor, version.patch), (0, 39, 2));
    assert!(ensure_supported_version("jj 0.40.0\n").is_ok());
    assert!(ensure_supported_version("jj 0.39.0").is_ok());
    match ensure_supported_version("jj 0.38.9\n") {
        Err(Error::UnsupportedJjVersion { found, minimum }) => {
            assert_eq!(found, "jj 0.38.9");
            assert_eq!(minimum, "0.39.0");
        },
        other => panic!("unexpected result {other:?}"),
    }
    assert!(ensure_supported_version("jj unknown").is_err());
}

#[test]
fn reads_diff_statistics_from_the_summary_line() {
    let diff = parse_diff_stat("src/a.rs | 3 ++-\n2 files changed, 5 insertions(+), 1 deletion(-)\n");
    assert_eq!(diff.status, WorkspaceDiffStatus::Available);
    assert_eq!(diff.files_changed, Some(2));
    assert_eq!(diff.insertions, Some(5));
    assert_eq!(diff.deletions, Some(1));
    assert_eq!(parse_diff_stat("nothing here\n").status, WorkspaceDiffStatus::Unknown);
}

#[test]
fn formats_commands_and_stderr() {
    let args = vec![String::from("workspace"), String::from("list")];
    assert_eq!(format_command(&args), "jj workspace list");
    assert_eq!(meaningful_stderr("  \n", "fallback"), "fallback");
    assert_eq!(meaningful_stderr(" oops \n", "fallback"), "oops");
}

#[test]
fn derives_repo_name_from_workspace_root() {
    assert_eq!(derive_repo_name("/work/repo", &name("default")).expect("name"), "repo");
    assert_eq!(derive_repo_name("/work/repo.feature", &name("feature")).expect("name"), "repo");
    assert!(matches!(derive_repo_name("/", &name("default")), Err(Error::RepoName)));
}

#[test]
fn plans_workspace_roots_from_the_template() {
    let template = WorkspaceTemplate::default();
    assert_eq!(
        planned_workspace_root("/work/repo", Some(&name("default")), "repo", &template, &name("feature")),
        "/work/repo/../repo.feature"
    );
    assert_eq!(planned_workspace_root("/work/repo", Some(&name("default")), "repo", &template, &name("default")), "/work/repo");
    let absolute = WorkspaceTemplate::new("/tmp/{workspace}").expect("template");
    assert_eq!(planned_workspace_root("/work/repo", None, "repo", &absolute, &name("x")), "/tmp/x");
    assert_eq!(display_path_for_list("/work/repo", "/work/repo.feature"), "../repo.feature");
}

#[test]
fn places_repo_files_under_the_navi_directory() {
    assert_eq!(repo_config_path("/r/.jj/repo"), "/r/.jj/repo/navi/config.toml");
    assert_eq!(workspace_metadata_path("/r/.jj/repo"), "/r/.jj/repo/navi/workspaces.toml");
}

#[test]
fn formats_creation_times_as_rfc3339() {
    let epoch = Timestamp { unix_seconds: 0, nanosecond: 0, offset_seconds: 0 };
    assert_eq!(format_rfc3339_text(epoch), Some(String::from("1970-01-01T00:00:00Z")));
    let offset = Timestamp { unix_seconds: 1_714_972_089, nanosecond: 500_000_000, offset_seconds: 7200 };
    assert_eq!(format_rfc3339_text(offset), Some(String::from("2024-05-06T07:08:09.5+02:00")));
}

#[test]
fn creation_times_keep_fraction_and_offset() {
    let record = parse_record_file(
        WorkspaceMetadataRecordFile {
            name: String::from("feature"),
            path: None,
            created_by_navi: true,
            created_at: String::from("2024-05-06T07:08:09.25+02:00"),
            template: String::from("../{repo}.{workspace}"),
            revision: String::new(),
        },
        "workspaces.toml",
    )
    .expect("valid record");
    assert_eq!(record.created_at.nanosecond, 250_000_000);
    assert_eq!(record.created_at.offset_seconds, 7200);
    let file = record_file_of(&record, "workspaces.toml").expect("writable");
    assert_eq!(file.created_at, "2024-05-06T07:08:09.25+02:00");
    let later = Timestamp { unix_seconds: record.created_at.unix_seconds + 3600, nanosecond: 0, offset_seconds: 0 };
    assert_eq!(render_age(Some(record.created_at), later), "59m");
    assert_eq!(elapsed_whole_seconds(record.created_at, later), 3599);
}

#[test]
fn trims_unicode_whitespace() {
    assert_eq!(trim("\u{a0} text \t"), "text");
}

#[test]
fn orders_prerelease_versions_below_releases() {
    let release = parse_version("1.0.0").expect("version");
    let pre = parse_version("1.0.0-alpha").expect("version");
    assert_eq!(compare_versions(&pre, &release), -1);
    assert_eq!(compare_versions(&release, &pre), 1);
}

#[test]
fn plans_the_shell_check_from_the_environment() {
    match shell_doctor_plan(None, Some("/home/u")).expect("plan") {
        ShellDoctorPlan::Done(findings) => {
            assert_eq!(findings.len(), 1);
            assert_eq!(findings[0].code, DoctorFindingCode::ShellDetectionFailed);
        },
        other => panic!("unexpected plan {other:?}"),
    }
    match shell_doctor_plan(Some("/bin/fish"), Some("/home/u")).expect("plan") {
        ShellDoctorPlan::Done(findings) => {
            assert_eq!(findings[0].message, "shell 'fish' is not supported");
            assert_eq!(findings[0].hint.as_deref(), Some("supported shells: bash, zsh"));
        },
        other => panic!("unexpected plan {other:?}"),
    }
    match shell_doctor_plan(Some("/bin/tcsh"), Some("/home/u")).expect("plan") {
        ShellDoctorPlan::Done(findings) => {
            assert_eq!(findings[0].message, "shell 'tcsh' is not supported");
        },
        other => panic!("unexpected plan {other:?}"),
    }
    match shell_doctor_plan(Some("/bin/zsh"), Some("/home/u")).expect("plan") {
        ShellDoctorPlan::Inspect { shell, rc_path } => {
            assert_eq!(shell, ShellKind::Zsh);
            assert_eq!(rc_path, "/home/u/.zshrc");
        },
        other => panic!("unexpected plan {other:?}"),
    }
    match shell_doctor_plan(Some("/bin/bash"), None).expect("plan") {
        ShellDoctorPlan::Done(findings) => assert_eq!(findings[0].code, DoctorFindingCode::HomeDirectoryMissing),
        other => panic!("unexpected plan {other:?}"),
    }
}

#[test]
fn inspects_the_shell_rc_file() {
    let missing = shell_doctor_findings("navi", ShellKind::Bash, "/home/u/.bashrc", RcProbe::NotFound).expect("findings");
    assert_eq!(missing[0].code, DoctorFindingCode::ShellRcMissing);
    assert_eq!(missing[0].hint.as_deref(), Some("run: navi config shell install --shell bash"));
    let installed = format!("a\n{MANAGED_BLOCK_START}\nx\n{MANAGED_BLOCK_END}\n");
    assert!(shell_doctor_findings("navi", ShellKind::Bash, "/home/u/.bashrc", RcProbe::Contents(installed))
        .expect("findings")
        .is_empty());
    let absent = shell_doctor_findings("nv", ShellKind::Zsh, "/home/u/.zshrc", RcProbe::Contents(String::from("a\n")))
        .expect("findings");
    assert_eq!(absent[0].message, "shell integration managed block is missing from /home/u/.zshrc");
    assert_eq!(absent[0].severity, DoctorSeverity::Info);
    let broken = shell_doctor_findings(
        "navi",
        ShellKind::Bash,
        "/home/u/.bashrc",
        RcProbe::Contents(format!("{MANAGED_BLOCK_END}\n{MANAGED_BLOCK_START}\n")),
    )
    .expect("findings");
    assert_eq!(broken[0].severity, DoctorSeverity::Error);
    assert_eq!(broken[0].hint.as_deref(), Some("managed block markers are out of order"));
}

fn pr(number: u64, title: &str, release: ReleaseLabel) -> PullRequestMetadata {
    PullRequestMetadata {
        number,
        title: title.to_owned(),
        author: ReleaseAuthor { login: String::from("octo"), display_name: String::from("Octo Cat") },
        merged_at: String::from("2026-01-01T00:00:00Z"),
        merge_commit_sha: String::from("abc"),
        release,
    }
}

#[test]
fn prepended_section_reads_back_as_release_notes() {
    let current = "# Changelog\n\nAll notable changes.\n\n## v1.0.0 - 2026-01-01\n\n- Old\n";
    let prs = vec![pr(7, "Add switch", ReleaseLabel::Minor)];
    let next = prepend_changelog(current, "1.1.0", "2026-02-02", &prs).expect("prepend");
    assert!(next.starts_with("# Changelog\n\nAll notable changes.\n\n## v1.1.0 - 2026-02-02\n"));
    assert!(next.ends_with("## v1.0.0 - 2026-01-01\n\n- Old\n\n"));
    let notes = release_notes(&next, "1.1.0").expect("notes");
    assert_eq!(notes, "## v1.1.0 - 2026-02-02\n\n### Minor\n\n- Add switch (#7, Octo Cat)\n");
    assert!(release_notes(&next, "9.9.9").is_err());
}

#[test]
fn joins_paths_as_unix_does() {
    assert_eq!(repo_config_path("/r/.jj/repo/"), "/r/.jj/repo/navi/config.toml");
    assert_eq!(workspace_metadata_path("rel"), "rel/navi/workspaces.toml");
    assert_eq!(repo_config_path(""), "navi/config.toml");
}
