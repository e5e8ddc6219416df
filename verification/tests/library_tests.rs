use jj_navi::completion::{
    command_index, complete_merge_workspace_context, complete_workspace_context, complete_workspace_value, completion_args, completion_index,
    completion_shell, filter_contextual_completions, include_long_flags, long_flag_args, merge_flag_completions,
    write_completions, Candidate,
};
use jj_navi::doctor::{DoctorFinding, DoctorFindingCode, DoctorReport, DoctorScope, DoctorSeverity};
use jj_navi::release::changelog::date_text;
use jj_navi::release::cli::{parse_command, ReleaseCommand};
use jj_navi::repo::discovery::{find_workspace_root, repo_pointer_target, RootCandidate};
use jj_navi::repo::workspace::confirm_answer;
use jj_navi::table::terminal_width_from_columns;
use jj_navi::error::Error;
use jj_navi::release::error::ToolError;
use jj_navi::release::github::ReleaseKind;
use jj_navi::release::project::{
    current_package_version, ensure_versions_match, find_repo_root, is_repo_root, run_prepare, supported_platforms,
    sync_package_json, update_root_readme_version, CargoManifest, JsonValue, RepoCandidate,
};
use jj_navi::release::version::{ensure_version_matches_release, parse_version, suggested_version};
use jj_navi::release::{PullRequestMetadata, ReleaseAuthor, ReleaseInput, ReleaseLabel};
use jj_navi::repo::doctor::{build_doctor_report, current_workspace_for_doctor, repo_config_for_doctor, start_doctor_report};
use jj_navi::repo::jj::JjWorkspaceListEntry;
use jj_navi::repo::metadata::WorkspaceMetadataStore;
use jj_navi::repo::paths::{
    current_workspace_resolution, workspace_path_candidates, PathResolution, ResolvedWorkspacePath,
};
use jj_navi::repo::state::{parse_workspace_name, RepoStateStore};
use jj_navi::repo::workspace::NaviWorkspace;
use jj_navi::shell::{shell_move, ShellMove};
use jj_navi::switch::{emit_existing_switch, land_created, land_existing, land_primary, run_switch, SwitchPlan};
use jj_navi::theme::{
    apply_color_settings, color_settings, paint_needed, parse_color, parse_color_value, parse_toml_bool,
    parse_toml_string, split_color_key, style_from_candidates, ColorSpec, ColorValue, OutputTheme, ParsedStyle,
    RawStyleValue,
};
use jj_navi::types::{RepoConfig, ShellKind, Timestamp, WorkspaceName, WorkspacePathSource, WorkspacePathState, WorkspaceTemplate};

fn words(items: &[&str]) -> Vec<String> {
    items.iter().map(|s| s.to_string()).collect()
}

fn repo_workspaces() -> Vec<String> {
    words(&["default", "feature-auth", "hotfix-bug"])
}

fn completion_output(argv: &[&str], workspaces: &[String]) -> String {
    let args = completion_args(&words(argv));
    let index = completion_index(None, args.len());
    let found = complete_workspace_context("navi", &args, index, workspaces).unwrap_or_default();
    write_completions("bash", "\n", &found)
}

fn values(candidates: &[Candidate]) -> Vec<String> {
    candidates.iter().map(|c| c.value.clone()).collect()
}

fn flag(value: &str) -> Candidate {
    Candidate { value: value.to_owned(), help: None }
}

#[test]
fn switch_completion_shows_workspace_names() {
    let stdout = completion_output(&["navi", "--", "navi", "switch", ""], &repo_workspaces());
    assert!(stdout.lines().any(|line| line == "feature-auth"));
    assert!(stdout.lines().any(|line| line == "hotfix-bug"));
}

#[test]
fn switch_completion_filters_workspace_prefix() {
    let stdout = completion_output(&["navi", "--", "navi", "switch", "fea"], &repo_workspaces());
    assert!(stdout.lines().any(|line| line == "feature-auth"));
    assert!(!stdout.lines().any(|line| line == "hotfix-bug"));
}

#[test]
fn remove_completion_shows_workspace_names() {
    let stdout = completion_output(&["navi", "--", "navi", "remove", ""], &repo_workspaces());
    assert!(stdout.lines().any(|line| line == "feature-auth"));
}

#[test]
fn merge_completion_shows_workspace_names_for_flags() {
    let stdout = completion_output(&["navi", "--", "navi", "merge", "--from", ""], &repo_workspaces());
    assert!(stdout.lines().any(|line| line == "feature-auth"));
}

#[test]
fn switch_completion_outside_jj_repo_does_not_error() {
    let stdout = completion_output(&["navi", "--", "navi", "switch", ""], &[]);
    assert!(!stdout.lines().any(|line| line == "feature-auth"));
}

#[test]
fn list_completion_hides_compact_until_json_is_present() {
    let args = words(&["navi", "ls", "--"]);
    let offered = vec![flag("--json"), flag("--compact"), flag("-c")];
    let kept = values(&filter_contextual_completions("navi", offered, &args, 2));
    assert!(kept.iter().any(|v| v == "--json"));
    assert!(!kept.iter().any(|v| v == "--compact"));
}

#[test]
fn list_completion_shows_compact_after_json_is_present() {
    let args = words(&["navi", "ls", "--json", "--"]);
    let offered = vec![flag("--json"), flag("--compact")];
    let kept = values(&filter_contextual_completions("navi", offered, &args, 3));
    assert!(kept.iter().any(|v| v == "--compact"));
}

#[test]
fn doctor_completion_hides_compact_until_json_is_present() {
    let args = words(&["navi", "doctor", "--"]);
    let offered = vec![flag("--json"), flag("--compact")];
    let kept = values(&filter_contextual_completions("navi", offered, &args, 2));
    assert!(kept.iter().any(|v| v == "--json"));
    assert!(!kept.iter().any(|v| v == "--compact"));
}

#[test]
fn switch_flag_completion_still_shows_options() {
    let args = words(&["navi", "switch", "--"]);
    assert!(complete_workspace_context("navi", &args, 2, &repo_workspaces()).is_none());
    let merged = merge_flag_completions(vec![flag("--create")], vec![flag("--create"), flag("--revision")]);
    assert_eq!(values(&merged), words(&["--create", "--revision"]));
}

#[test]
fn completion_request_needs_a_shell() {
    assert_eq!(completion_shell(None), None);
    assert_eq!(completion_shell(Some("")), None);
    assert_eq!(completion_shell(Some("0")), None);
    assert_eq!(completion_shell(Some("zsh")), Some(String::from("zsh")));
}

#[test]
fn completion_words_follow_the_escape() {
    assert_eq!(completion_args(&words(&["navi", "--", "navi", "switch", "x"])), words(&["navi", "switch", "x"]));
    assert!(completion_args(&words(&["navi", "switch"])).is_empty());
}

#[test]
fn completion_index_reads_the_environment() {
    assert_eq!(completion_index(Some("1"), 3), 1);
    assert_eq!(completion_index(Some("+2"), 3), 2);
    assert_eq!(completion_index(Some("x"), 3), 2);
    assert_eq!(completion_index(None, 0), 0);
    assert_eq!(command_index("navi", &words(&["navi", "ls"])), Some(1));
    assert_eq!(command_index("navi", &words(&["ls"])), Some(0));
    assert!(include_long_flags(&words(&["navi", "ls", "-"]), 2));
    assert_eq!(long_flag_args(&words(&["navi", "ls", "-"]), 2), words(&["navi", "ls", "--"]));
}

#[test]
fn merge_completion_with_inline_option_keeps_its_prefix() {
    let args = words(&["navi", "merge", "src", "--into=fea"]);
    assert!(complete_workspace_context("navi", &args, 3, &repo_workspaces()).is_none());
    let found = complete_merge_workspace_context(&args, 3, 1, "--into=fea", &repo_workspaces()).expect("workspaces");
    assert_eq!(values(&found), words(&["--into=feature-auth"]));
    assert!(complete_merge_workspace_context(&args, 2, 1, "--into=fea", &repo_workspaces()).is_none());
}

#[test]
fn workspace_value_completion_skips_options() {
    assert!(complete_workspace_value("-x", &repo_workspaces()).is_empty());
    assert_eq!(values(&complete_workspace_value("hot", &repo_workspaces())), words(&["hotfix-bug"]));
}

#[test]
fn completions_are_written_with_help_for_zsh() {
    let candidates = vec![
        Candidate { value: String::from("--json"), help: Some(String::from("Emit JSON")) },
        Candidate { value: String::from("--compact"), help: None },
    ];
    assert_eq!(write_completions("zsh", "\n", &candidates), "--json:Emit JSON\n--compact");
    assert_eq!(write_completions("fish", " ", &candidates), "--json\tEmit JSON --compact");
    assert_eq!(write_completions("bash", "\n", &candidates), "--json\n--compact");
}

fn release_package(access: &str) -> JsonValue {
    JsonValue::Object(vec![
        (String::from("name"), JsonValue::Text(String::from("jj-navi"))),
        (String::from("version"), JsonValue::Text(String::from("1.2.3"))),
        (
            String::from("optionalDependencies"),
            JsonValue::Object(vec![(String::from("jj-navi-linux-x64"), JsonValue::Text(String::from("1.2.3")))]),
        ),
        (
            String::from("publishConfig"),
            JsonValue::Object(vec![
                (String::from("access"), JsonValue::Text(access.to_owned())),
                (String::from("provenance"), JsonValue::Bool(true)),
            ]),
        ),
    ])
}

fn platforms() -> JsonValue {
    JsonValue::Object(vec![(String::from("linux-x64"), JsonValue::Object(Vec::new()))])
}

const README: &str = "# jj-navi\n\n```sh\ncargo install jj-navi --version 1.2.3\n```\n";

fn version(text: &str) -> jj_navi::release::version::SemVersion {
    parse_version(text).expect("parse version")
}

#[test]
fn rejects_wrapper_readme_drift() {
    let error = ensure_versions_match(
        &version("1.2.3"),
        Ok(version("1.2.3")),
        Ok(release_package("public")),
        Ok(String::from(README)),
        Ok(String::from("stale wrapper readme\n")),
        Ok(platforms()),
    )
    .expect_err("versions should fail");
    assert!(error.describe().contains("npm/jj-navi/README.md must stay in sync with README.md"));
}

#[test]
fn rejects_non_public_publish_access() {
    let error = ensure_versions_match(
        &version("1.2.3"),
        Ok(version("1.2.3")),
        Ok(release_package("restricted")),
        Ok(String::from(README)),
        Ok(String::from(README)),
        Ok(platforms()),
    )
    .expect_err("versions should fail");
    assert!(error.describe().contains("npm publishConfig.access must be public"));
}

#[test]
fn sync_versions_updates_wrapper_readme() {
    let mut manifest = CargoManifest::load("Cargo.toml", String::from("[package]\nname = \"jj-navi\"\nversion = \"1.2.3\"\n"))
        .expect("load manifest");
    manifest.set_version("1.2.4").expect("set version");
    let readme = update_root_readme_version(README, "1.2.4").expect("update readme");
    let wrapper_readme = readme.clone();
    let package = sync_package_json(release_package("public"), "1.2.4", Ok(platforms())).expect("sync package");

    ensure_versions_match(&version("1.2.4"), manifest.version(), Ok(package), Ok(readme), Ok(wrapper_readme), Ok(platforms()))
        .expect("versions should match");
}

#[test]
fn cargo_manifest_updates_package_version_without_touching_dependencies() {
    let mut manifest = CargoManifest::load(
        "Cargo.toml",
        String::from("[package]\nname = \"jj-navi\"\nversion = \"0.1.0\" # keep comment\n\n[dependencies]\nserde = { version = \"1\" }\n"),
    )
    .expect("load manifest");
    manifest.set_version("0.2.0").expect("set version");
    let updated = manifest.text();
    assert!(updated.contains("version = \"0.2.0\""));
    assert!(updated.contains("serde = { version = \"1\" }"));
    assert_eq!(manifest.version().expect("read version"), version("0.2.0"));
}

#[test]
fn cargo_manifest_without_package_version_is_refused() {
    let manifest = CargoManifest::load("Cargo.toml", String::from("[workspace]\n")).expect("load manifest");
    assert_eq!(
        manifest.version(),
        Err(ToolError::Message(String::from("could not read Cargo.toml package version")))
    );
    assert!(CargoManifest::load("Cargo.toml", String::from("[package")).is_err());
}

#[test]
fn reports_each_release_file_mismatch() {
    let cargo_mismatch = ensure_versions_match(
        &version("1.2.4"),
        Ok(version("1.2.3")),
        Ok(release_package("public")),
        Ok(String::from(README)),
        Ok(String::from(README)),
        Ok(platforms()),
    );
    assert_eq!(
        cargo_mismatch,
        Err(ToolError::Message(String::from("Cargo.toml version mismatch: expected 1.2.4, got 1.2.3")))
    );
    let missing_platforms = ensure_versions_match(
        &version("1.2.3"),
        Ok(version("1.2.3")),
        Ok(release_package("public")),
        Ok(String::from(README)),
        Ok(String::from(README)),
        Ok(JsonValue::Array(Vec::new())),
    );
    assert_eq!(missing_platforms, Err(ToolError::Message(String::from("platforms.json must be an object"))));
    let read_error = ensure_versions_match(
        &version("1.2.3"),
        Ok(version("1.2.3")),
        Ok(release_package("public")),
        Err(ToolError::Io(String::from("no README"))),
        Ok(String::from(README)),
        Ok(platforms()),
    );
    assert_eq!(read_error, Err(ToolError::Io(String::from("no README"))));
}

#[test]
fn reads_package_version_and_platforms() {
    assert_eq!(current_package_version(&release_package("public")), Ok(version("1.2.3")));
    assert_eq!(
        current_package_version(&JsonValue::Object(Vec::new())),
        Err(ToolError::Message(String::from("could not read npm package version")))
    );
    assert_eq!(supported_platforms(&platforms()), Ok(words(&["linux-x64"])));
}

#[test]
fn readme_without_install_line_is_refused() {
    assert_eq!(
        update_root_readme_version("# nothing\n", "1.0.0"),
        Err(ToolError::Message(String::from("README install version not found")))
    );
    assert_eq!(
        update_root_readme_version("x\ncargo install jj-navi --version 0.1.0\ny", "0.2.0"),
        Ok(String::from("x\ncargo install jj-navi --version 0.2.0\ny"))
    );
}

fn candidate(path: &str, has_jj: bool, markers: bool) -> RepoCandidate {
    RepoCandidate {
        path: path.to_owned(),
        has_jj,
        has_git: false,
        has_cargo_manifest: markers,
        has_changelog: markers,
        has_workflows: markers,
        has_npm_package: markers,
        has_xtask_manifest: markers,
    }
}

#[test]
fn detects_jj_repo_root() {
    let root = candidate("/repo", true, true);
    assert!(is_repo_root(&root));
    assert_eq!(
        find_repo_root(&[candidate("/repo/xtask", false, false), candidate("/repo", true, true)]),
        Ok(String::from("/repo"))
    );
}

#[test]
fn rejects_random_git_repo_without_project_markers() {
    let mut root = candidate("/repo", false, false);
    root.has_git = true;
    assert!(!is_repo_root(&root));
    assert!(find_repo_root(&[root]).is_err());
}

fn pr(number: u64, merged_at: &str, release: ReleaseLabel) -> PullRequestMetadata {
    PullRequestMetadata {
        number,
        title: format!("Change {number}"),
        author: ReleaseAuthor { login: String::from("octo"), display_name: String::new() },
        merged_at: merged_at.to_owned(),
        merge_commit_sha: String::from("abc"),
        release,
    }
}

#[test]
fn prepares_release_from_user_facing_prs_in_merge_order() {
    let input = ReleaseInput {
        schema: 1,
        previous_tag: None,
        prs: vec![
            pr(3, "2026-01-03T00:00:00Z", ReleaseLabel::Patch),
            pr(1, "2026-01-01T00:00:00Z", ReleaseLabel::NoRelease),
            pr(2, "2026-01-02T00:00:00Z", ReleaseLabel::Minor),
        ],
    };
    let prepared = run_prepare("1.3.0", Ok(version("1.2.3")), Ok(version("1.2.3")), Ok(input)).expect("prepare");
    assert_eq!(prepared.version, "1.3.0");
    let numbers: Vec<u64> = prepared.included.iter().map(|p| p.number).collect();
    assert_eq!(numbers, vec![2, 3]);
}

#[test]
fn refuses_release_with_version_drift_or_no_user_facing_prs() {
    let input = ReleaseInput { schema: 1, previous_tag: None, prs: vec![pr(1, "2026-01-01T00:00:00Z", ReleaseLabel::Patch)] };
    assert_eq!(
        run_prepare("1.3.0", Ok(version("1.2.3")), Ok(version("1.2.2")), Ok(input)).map(|p| p.version),
        Err(ToolError::Message(String::from("version drift before release: Cargo=1.2.3, npm=1.2.2")))
    );
    let input = ReleaseInput { schema: 1, previous_tag: None, prs: vec![pr(1, "2026-01-01T00:00:00Z", ReleaseLabel::Patch)] };
    assert_eq!(
        run_prepare("1.2.3", Ok(version("1.2.3")), Ok(version("1.2.3")), Ok(input)).map(|p| p.version),
        Err(ToolError::Message(String::from("release version must be greater than current version 1.2.3")))
    );
    let input =
        ReleaseInput { schema: 1, previous_tag: None, prs: vec![pr(1, "2026-01-01T00:00:00Z", ReleaseLabel::NoRelease)] };
    assert_eq!(
        run_prepare("1.3.0", Ok(version("1.2.3")), Ok(version("1.2.3")), Ok(input)).map(|p| p.version),
        Err(ToolError::Message(String::from("release input has no user-facing PRs")))
    );
    assert!(matches!(run_prepare("not-a-version", Ok(version("1.2.3")), Ok(version("1.2.3")), Err(ToolError::Io(String::new()))), Err(ToolError::Semver(_))));
}

#[test]
fn suggested_version_is_accepted_for_its_release_kind() {
    let current = version("1.2.3-beta.1");
    for kind in [ReleaseKind::Patch, ReleaseKind::Minor, ReleaseKind::Major] {
        let next = suggested_version(&current, kind);
        assert_eq!(ensure_version_matches_release(&current, &next, kind), Ok(()));
    }
    assert_eq!(suggested_version(&version("1.2.3"), ReleaseKind::Minor), version("1.3.0"));
}

fn template() -> WorkspaceTemplate {
    WorkspaceTemplate::default()
}

#[test]
fn recorded_workspace_reads_back() {
    let mut store = WorkspaceMetadataStore::empty("workspaces.toml");
    let feature = WorkspaceName::new("feature").expect("valid");
    let other = WorkspaceName::new("other").expect("valid");
    store.record_workspace(&other, "/repo.other", &template(), None, at(5));
    store.record_workspace(&feature, "/repo.feature", &template(), Some("main"), at(7));
    assert_eq!(store.workspace_path(&feature), Some(String::from("/repo.feature")));
    assert_eq!(store.workspace_created_at(&feature), Some(at(7)));
    store.record_workspace(&feature, "/elsewhere", &template(), None, at(9));
    assert_eq!(store.workspace_path(&feature), Some(String::from("/elsewhere")));
    assert!(store.contains_workspace(&other));
    store.remove_workspace(&feature);
    assert!(!store.contains_workspace(&feature));
    assert_eq!(store.workspace_path(&other), Some(String::from("/repo.other")));
}

#[test]
fn previous_workspace_state_reads_back() {
    let name = WorkspaceName::new("feature").expect("valid");
    let store = RepoStateStore::with_previous("state.toml", &name);
    let written = store.previous_workspace_text();
    let read = parse_workspace_name(written, "state.toml").expect("read state");
    assert_eq!(read.map(|w| w.as_str().to_owned()), Some(String::from("feature")));
    assert!(matches!(
        parse_workspace_name(Some(String::from("bad name")), "state.toml"),
        Err(Error::InvalidRepoState { .. })
    ));
    assert!(matches!(parse_workspace_name(Some(String::new()), "state.toml"), Ok(None)));
}

fn listed(name: &str, is_current: bool) -> JjWorkspaceListEntry {
    JjWorkspaceListEntry {
        name: WorkspaceName::new(name).expect("valid"),
        is_current,
        commit_id: String::from("abc"),
        change_id: String::from("xyz"),
        message: String::new(),
    }
}

fn at(unix_seconds: i64) -> Timestamp {
    Timestamp { unix_seconds, nanosecond: 0, offset_seconds: 0 }
}

fn open_repo() -> NaviWorkspace {
    NaviWorkspace::open(
        "/work/repo",
        "/work/repo",
        "/work/repo/.jj/repo",
        RepoConfig::default(),
        WorkspaceName::new("default").expect("valid"),
    )
    .expect("open repo")
}

#[test]
fn switch_plans_follow_the_request() {
    let repo = open_repo();
    let list = vec![listed("default", true), listed("feature", false)];
    assert!(matches!(run_switch(&repo, "-", false, None, &list), Ok(SwitchPlan::Previous)));
    assert!(matches!(run_switch(&repo, "^", false, None, &list), Ok(SwitchPlan::Primary)));
    match run_switch(&repo, "^", true, None, &list) {
        Err(e) => assert_eq!(e.message(), "error: '^' is a reserved switch target"),
        other => panic!("unexpected plan {other:?}"),
    }
    match run_switch(&repo, "feature", false, None, &list) {
        Ok(SwitchPlan::Existing(w)) => assert_eq!(w.as_str(), "feature"),
        other => panic!("unexpected plan {other:?}"),
    }
    match run_switch(&repo, "@", false, None, &list) {
        Ok(SwitchPlan::Existing(w)) => assert_eq!(w.as_str(), "default"),
        other => panic!("unexpected plan {other:?}"),
    }
    assert!(matches!(run_switch(&repo, "new", false, None, &list), Err(Error::WorkspaceDoesNotExist)));
    match run_switch(&repo, "new", true, Some("main"), &list) {
        Ok(SwitchPlan::Create(w)) => {
            assert_eq!(w.as_str(), "new");
            let store = WorkspaceMetadataStore::empty("/work/repo/.jj/repo/navi/workspaces.toml");
            let creation = repo.create_workspace(&w, Some("main"), Ok(store), at(60)).expect("created");
            assert_eq!(creation.target_root, "/work/repo/../repo.new");
            assert_eq!(
                creation.jj_args,
                words(&["workspace", "add", "--name", "new", "-r", "main", "/work/repo/../repo.new"])
            );
            assert_eq!(creation.metadata.workspace_path(&w).as_deref(), Some("/work/repo/../repo.new"));
            assert_eq!(creation.metadata.workspace_created_at(&w), Some(at(60)));
        },
        other => panic!("unexpected plan {other:?}"),
    }
    assert!(matches!(run_switch(&repo, "bad name", true, None, &list), Err(Error::InvalidWorkspaceName(_))));
}

#[test]
fn switch_warns_only_for_template_fallback() {
    let repo = open_repo();
    let name = WorkspaceName::new("feature").expect("valid");
    let template_path =
        ResolvedWorkspacePath { path: String::from("/work/repo.feature"), state: WorkspacePathState::Inferred, source: WorkspacePathSource::Template };
    let destination = emit_existing_switch(&repo, &name, &template_path).expect("switchable");
    assert!(destination.warn_fallback);
    assert_eq!(destination.display_path, "../repo.feature");
    let metadata_path = ResolvedWorkspacePath {
        path: String::from("/work/repo.feature"),
        state: WorkspacePathState::Inferred,
        source: WorkspacePathSource::NaviMetadata,
    };
    assert!(!emit_existing_switch(&repo, &name, &metadata_path).expect("switchable").warn_fallback);
    let missing = ResolvedWorkspacePath {
        path: String::from("/work/repo.feature"),
        state: WorkspacePathState::Missing,
        source: WorkspacePathSource::Template,
    };
    assert!(matches!(emit_existing_switch(&repo, &name, &missing), Err(Error::WorkspaceDirectoryUnavailable { .. })));
}

#[test]
fn doctor_report_collects_load_failures_as_findings() {
    let (current, orphan) = current_workspace_for_doctor("/work/repo", Err(Error::OrphanedWorkspace)).expect("finding");
    assert!(current.is_none());
    assert!(orphan.is_some());
    let (config, valid, config_finding) = repo_config_for_doctor(Err(Error::InvalidRepoConfig {
        path: String::from("config.toml"),
        message: String::from("bad"),
    }))
    .expect("finding");
    assert!(!valid);
    assert!(config_finding.is_some());
    assert_eq!(config.workspace_template.as_str(), "../{repo}.{workspace}");
    let start = start_doctor_report(
        "/work/repo/.jj/repo",
        "/work/repo",
        "/work/repo/.jj/repo/navi/workspaces.toml",
        Err(Error::OrphanedWorkspace),
        Err(Error::InvalidRepoConfig { path: String::from("config.toml"), message: String::from("bad") }),
        Err(Error::InvalidWorkspaceMetadata { path: String::from("workspaces.toml"), message: String::from("worse") }),
    )
    .expect("findings");
    assert!(start.current.is_none());
    assert_eq!(start.repo_name, "repo");
    assert!(!start.config_is_valid);
    assert!(!start.metadata_is_valid);
    assert!(start.metadata.records.is_empty());
    let codes: Vec<DoctorFindingCode> = start.findings.iter().map(|f| f.code).collect();
    assert_eq!(
        codes,
        vec![DoctorFindingCode::OrphanedWorkspace, DoctorFindingCode::InvalidRepoConfig, DoctorFindingCode::InvalidWorkspaceMetadata]
    );
    assert_eq!(start.findings[2].hint.as_deref(), Some("worse"));
    let report = build_doctor_report(start.findings, Vec::new(), Vec::new());
    assert_eq!(report.findings.len(), 3);
    assert!(report.findings.iter().all(|f| f.severity == DoctorSeverity::Error));
    assert!(matches!(current_workspace_for_doctor("/work/repo", Err(Error::RepoName)), Err(Error::RepoName)));
}

#[test]
fn doctor_start_stops_on_errors_in_order() {
    let stopped = start_doctor_report(
        "/work/repo/.jj/repo",
        "/work/repo",
        "/work/repo/.jj/repo/navi/workspaces.toml",
        Err(Error::RepoName),
        Err(Error::InvalidRepoConfig { path: String::from("config.toml"), message: String::from("bad") }),
        Err(Error::OrphanedWorkspace),
    );
    assert!(matches!(stopped, Err(Error::RepoName)));
    let stopped = start_doctor_report(
        "/work/repo/.jj/repo",
        "/work/repo",
        "/work/repo/.jj/repo/navi/workspaces.toml",
        Ok(WorkspaceName::new("default").expect("valid")),
        Ok(RepoConfig { workspace_template: WorkspaceTemplate::new("../{repo}-{workspace}").expect("valid") }),
        Err(Error::OrphanedWorkspace),
    );
    assert!(matches!(stopped, Err(Error::OrphanedWorkspace)));
}

#[test]
fn doctor_report_keeps_equal_findings_in_order() {
    let finding = |path: &str| DoctorFinding {
        severity: DoctorSeverity::Warning,
        code: DoctorFindingCode::InvalidRepoConfig,
        scope: DoctorScope::Repo,
        message: String::from("same message"),
        path: Some(String::from(path)),
        hint: None,
    };
    let mut error = finding("third");
    error.severity = DoctorSeverity::Error;
    let report = build_doctor_report(vec![finding("first")], vec![error, finding("second")], vec![finding("last")]);
    let paths: Vec<&str> = report.findings.iter().map(|f| f.path.as_deref().unwrap_or("")).collect();
    assert_eq!(paths, vec!["third", "first", "second", "last"]);
    let mut again = DoctorReport { findings: report.findings.clone() };
    again.sort();
    assert_eq!(again, report);
}

#[test]
fn parses_terminal_colors() {
    assert_eq!(parse_color(" Red "), Some(ColorSpec::Ansi(1)));
    assert_eq!(parse_color("bright white"), Some(ColorSpec::Ansi(15)));
    assert_eq!(parse_color("ansi-color-42"), Some(ColorSpec::Ansi256(42)));
    assert_eq!(parse_color("ansi-color-256"), None);
    assert_eq!(parse_color("#FF0080"), Some(ColorSpec::Rgb(255, 0, 128)));
    assert_eq!(parse_color("#12345"), None);
    assert_eq!(parse_color("teal"), None);
    assert_eq!(parse_color_value("Default"), Some(ColorValue::Default));
    assert_eq!(parse_toml_bool(" true "), Some(true));
    assert_eq!(parse_toml_bool("yes"), None);
}

#[test]
fn splits_color_keys() {
    assert_eq!(split_color_key("\"navi.header\".fg"), (String::from("\"navi.header\""), Some(String::from("fg"))));
    assert_eq!(split_color_key("\"error heading\""), (String::from("\"error heading\""), None));
    assert_eq!(split_color_key("diff.added"), (String::from("diff"), Some(String::from("added"))));
    assert_eq!(split_color_key("error"), (String::from("error"), None));
}

#[test]
fn reads_toml_strings_through_the_toml_crate() {
    assert_eq!(parse_toml_string("\"green\""), Some(String::from("green")));
    assert_eq!(parse_toml_string("green"), None);
}

#[test]
fn builds_output_theme_from_color_settings() {
    let config = "colors.error = \"red\"\ncolors.\"navi.header\".fg = \"blue\"\ncolors.\"navi.header\".bold = true\n\nignored line\n";
    let settings = color_settings(config);
    assert_eq!(settings.len(), 3);
    let decoded = vec![Some(RawStyleValue::Color(String::from("red"))), None, None];
    let styles = apply_color_settings(&settings, &decoded);
    let header = style_from_candidates(&styles, &["\"navi.header\"", "\"warning heading\""]);
    assert_eq!(header.fg, Some(ColorSpec::Ansi(4)));
    assert!(header.bold);
    let theme = OutputTheme::load(&styles);
    assert_eq!(theme.error_badge.fg, Some(ColorSpec::Ansi(1)));
    assert_eq!(theme.meta, ParsedStyle::plain());
    assert!(paint_needed(&theme.error_badge, true));
    assert!(!paint_needed(&theme.error_badge, false));
    assert!(!paint_needed(&theme.meta, true));
}

#[test]
fn reads_release_tool_commands() {
    assert_eq!(parse_command(&[]), Ok(ReleaseCommand::Help));
    assert_eq!(parse_command(&words(&["--version"])), Ok(ReleaseCommand::Version));
    assert_eq!(
        parse_command(&words(&["prepare", "1.2.3", "input.json"])),
        Ok(ReleaseCommand::Prepare { version: String::from("1.2.3"), input_path: Some(String::from("input.json")) })
    );
    assert_eq!(parse_command(&words(&["validate"])), Ok(ReleaseCommand::Validate { version: None }));
    assert_eq!(
        parse_command(&words(&["notes"])),
        Err(ToolError::Message(String::from("notes requires <version>")))
    );
    assert_eq!(parse_command(&words(&["ship"])), Err(ToolError::Message(String::from("unknown command: ship"))));
}

#[test]
fn finds_workspace_root_and_repo_pointer() {
    let ancestors = vec![
        RootCandidate { path: String::from("/w/repo/src"), has_jj_dir: false },
        RootCandidate { path: String::from("/w/repo"), has_jj_dir: true },
    ];
    assert_eq!(find_workspace_root(&ancestors).expect("root"), "/w/repo");
    assert!(matches!(find_workspace_root(&ancestors[..1]), Err(Error::NotInWorkspace)));
    assert_eq!(repo_pointer_target("/w/second/.jj", "/w/second/.jj/repo", "../../repo/.jj/repo\n").expect("target"), "/w/second/.jj/../../repo/.jj/repo");
    assert_eq!(repo_pointer_target("/w/second/.jj", "/w/second/.jj/repo", "/abs/repo").expect("target"), "/abs/repo");
    assert!(matches!(repo_pointer_target("/w/second/.jj", "/w/second/.jj/repo", "  \n"), Err(Error::InvalidRepoPointer(_))));
}

#[test]
fn writes_metadata_records_for_the_file() {
    let mut store = WorkspaceMetadataStore::empty("/r/navi/workspaces.toml");
    store.record_workspace(&WorkspaceName::new("feature").expect("valid"), "", &template(), None, at(60));
    let files = store.file_records().expect("records");
    assert_eq!(files[0].name, "feature");
    assert_eq!(files[0].path, None);
    assert_eq!(files[0].created_at, "1970-01-01T00:01:00Z");
    assert_eq!(files[0].revision, "");
    assert_eq!(store.metadata_dir().expect("dir"), "/r/navi");
}

#[test]
fn small_command_decisions() {
    assert!(confirm_answer(" yes\n").is_ok());
    assert!(matches!(confirm_answer("y"), Err(Error::RemoveCancelled)));
    assert_eq!(terminal_width_from_columns(Some("120")), Some(120));
    assert_eq!(terminal_width_from_columns(Some("0")), None);
    assert_eq!(terminal_width_from_columns(Some("wide")), None);
    assert_eq!(date_text(2026, 3, 7), "2026-03-07");
    assert_eq!(date_text(-5, 1, 1), "-005-01-01");
    assert_eq!(ShellKind::detect(Some("/usr/bin/zsh")).expect("shell"), ShellKind::Zsh);
    assert!(matches!(ShellKind::detect(None), Err(Error::ShellDetection)));
    assert!(matches!(ShellKind::detect(Some("/bin/tcsh")), Err(Error::UnsupportedShell(_))));
}

#[test]
fn path_candidates_follow_source_order() {
    let default = WorkspaceName::new("default").expect("valid");
    let mut store = WorkspaceMetadataStore::empty("/r/.jj/repo/navi/workspaces.toml");
    store.record_workspace(&default, "/w/recorded", &template(), None, at(60));
    let found = workspace_path_candidates(Some(String::from("/w/jj")), "/r/.jj/repo", Some(&store), &default);
    let seen: Vec<(&str, WorkspacePathSource)> = found.iter().map(|c| (c.path.as_str(), c.source)).collect();
    assert_eq!(
        seen,
        vec![
            ("/w/jj", WorkspacePathSource::JjRecorded),
            ("/r", WorkspacePathSource::RepoPrimary),
            ("/w/recorded", WorkspacePathSource::NaviMetadata),
        ]
    );
    let feature = WorkspaceName::new("feature").expect("valid");
    let found = workspace_path_candidates(None, "/r/.jj/repo", None, &feature);
    assert!(found.is_empty());
    assert!(current_workspace_resolution("/w/main", Some(&feature), &default).is_none());
    let current = current_workspace_resolution("/w/main", Some(&default), &default).expect("current");
    assert_eq!(current.path, "/w/main");
    assert_eq!(current.source, WorkspacePathSource::CurrentWorkspace);
}

#[test]
fn path_resolution_takes_first_switchable_then_fallback() {
    let path = |p: &str, state: WorkspacePathState, source: WorkspacePathSource| ResolvedWorkspacePath {
        path: String::from(p),
        state,
        source,
    };
    let mut resolution = PathResolution::new();
    assert!(resolution.offer(path("/a", WorkspacePathState::Missing, WorkspacePathSource::JjRecorded)).is_none());
    assert!(resolution.offer(path("/b", WorkspacePathState::Stale, WorkspacePathSource::RepoPrimary)).is_none());
    let chosen = resolution.offer(path("/c", WorkspacePathState::Inferred, WorkspacePathSource::NaviMetadata));
    assert_eq!(chosen.expect("switchable").path, "/c");

    let mut resolution = PathResolution::new();
    assert!(resolution.offer(path("/a", WorkspacePathState::Missing, WorkspacePathSource::JjRecorded)).is_none());
    assert!(resolution.offer(path("/b", WorkspacePathState::Stale, WorkspacePathSource::NaviMetadata)).is_none());
    let template = path("/t", WorkspacePathState::Inferred, WorkspacePathSource::Template);
    assert_eq!(resolution.finish(template, true).path, "/t");

    let mut resolution = PathResolution::new();
    assert!(resolution.offer(path("/a", WorkspacePathState::Missing, WorkspacePathSource::JjRecorded)).is_none());
    let template = path("/t", WorkspacePathState::Inferred, WorkspacePathSource::Template);
    assert_eq!(resolution.finish(template, false).path, "/a");

    let resolution = PathResolution::new();
    let template = path("/t", WorkspacePathState::Missing, WorkspacePathSource::Template);
    assert_eq!(resolution.finish(template, true).path, "/t");
}

#[test]
fn create_workspace_stops_on_unreadable_records() {
    let repo = open_repo();
    let name = WorkspaceName::new("new").expect("valid");
    let loaded = Err(Error::InvalidWorkspaceMetadata { path: String::from("workspaces.toml"), message: String::from("bad") });
    assert!(matches!(repo.create_workspace(&name, None, loaded, at(60)), Err(Error::InvalidWorkspaceMetadata { .. })));
}

#[test]
fn forget_workspace_drops_only_its_record() {
    let repo = open_repo();
    let list = vec![listed("default", true), listed("feature", false)];
    let feature = WorkspaceName::new("feature").expect("valid");
    let other = WorkspaceName::new("other").expect("valid");
    let mut store = WorkspaceMetadataStore::empty("/work/repo/.jj/repo/navi/workspaces.toml");
    store.record_workspace(&feature, "/work/repo.feature", &template(), None, at(60));
    store.record_workspace(&other, "/work/repo.other", &template(), None, at(70));
    let (removed, args, after) = repo.forget_workspace(&feature, &list, Ok(store)).expect("forget");
    assert_eq!(removed.as_str(), "feature");
    assert_eq!(args, words(&["workspace", "forget", "feature"]));
    assert!(!after.contains_workspace(&feature));
    assert_eq!(after.workspace_path(&other).as_deref(), Some("/work/repo.other"));
    let default = WorkspaceName::new("default").expect("valid");
    let store = WorkspaceMetadataStore::empty("workspaces.toml");
    assert!(matches!(repo.forget_workspace(&default, &list, Ok(store)), Err(Error::CannotRemoveCurrentWorkspace)));
    let store = WorkspaceMetadataStore::empty("workspaces.toml");
    assert!(matches!(repo.forget_workspace(&other, &list, Ok(store)), Err(Error::WorkspaceNotFound(_))));
}

#[test]
fn removable_path_refuses_shared_storage() {
    let repo = open_repo();
    let list = vec![listed("default", true), listed("feature", false)];
    let feature = WorkspaceName::new("feature").expect("valid");
    let resolved = ResolvedWorkspacePath {
        path: String::from("/work/repo.feature"),
        state: WorkspacePathState::Confirmed,
        source: WorkspacePathSource::JjRecorded,
    };
    let ok = repo.resolve_removable_workspace_path(&feature, &list, &resolved, Ok(String::from("/work/repo.feature")));
    assert_eq!(ok.expect("removable"), "/work/repo.feature");
    let shared = repo.resolve_removable_workspace_path(&feature, &list, &resolved, Ok(String::from("/work/repo")));
    assert!(matches!(shared, Err(Error::CannotRemoveWorkspaceWithSharedRepoStorage { .. })));
    let missing = ResolvedWorkspacePath {
        path: String::from("/work/repo.feature"),
        state: WorkspacePathState::Missing,
        source: WorkspacePathSource::JjRecorded,
    };
    let gone = repo.resolve_removable_workspace_path(&feature, &list, &missing, Err(Error::RepoName));
    assert!(matches!(gone, Err(Error::WorkspaceDirectoryUnavailable { .. })));
}

#[test]
fn switch_back_needs_a_listed_previous_workspace() {
    let repo = open_repo();
    let list = vec![listed("default", true), listed("feature", false)];
    let feature = WorkspaceName::new("feature").expect("valid");
    let default = WorkspaceName::new("default").expect("valid");
    let gone = WorkspaceName::new("gone").expect("valid");
    assert_eq!(repo.resolve_previous_workspace(Some(&feature), &list).expect("previous").as_str(), "feature");
    assert!(matches!(repo.resolve_previous_workspace(None, &list), Err(Error::NoPreviousWorkspace)));
    assert!(matches!(repo.resolve_previous_workspace(Some(&default), &list), Err(Error::NoPreviousWorkspace)));
    match repo.resolve_previous_workspace(Some(&gone), &list) {
        Err(Error::PreviousWorkspaceNotFound(name)) => assert_eq!(name, "gone"),
        other => panic!("unexpected result {other:?}"),
    }
    let saved = repo.state_after_switch("state.toml", &feature).expect("recorded");
    assert_eq!(saved.previous_workspace_text().as_deref(), Some("default"));
    assert!(repo.state_after_switch("state.toml", &default).is_none());
}

#[test]
fn switch_output_goes_to_directive_file_or_stdout() {
    match shell_move(Some(String::from("/tmp/directive")), "../repo.it's") {
        ShellMove::Directive { file, line } => {
            assert_eq!(file, "/tmp/directive");
            assert_eq!(line, "cd -- '../repo.it'\\''s'\n");
        },
        other => panic!("unexpected move {other:?}"),
    }
    assert_eq!(shell_move(Some(String::from("  ")), "../repo.feature"), ShellMove::Print(String::from("../repo.feature\n")));
    assert_eq!(shell_move(None, "../repo.feature"), ShellMove::Print(String::from("../repo.feature\n")));
}

#[test]
fn failed_switch_leaves_state_alone() {
    let repo = open_repo();
    let feature = WorkspaceName::new("feature").expect("valid");
    let failed = land_existing(&repo, "state.toml", &feature, Err(Error::RepoName));
    assert!(matches!(failed, Err(Error::RepoName)));
    let missing = ResolvedWorkspacePath {
        path: String::from("/work/repo.feature"),
        state: WorkspacePathState::Missing,
        source: WorkspacePathSource::JjRecorded,
    };
    assert!(matches!(
        land_existing(&repo, "state.toml", &feature, Ok(missing)),
        Err(Error::WorkspaceDirectoryUnavailable { .. })
    ));
    let store = WorkspaceMetadataStore::empty("workspaces.toml");
    let creation = repo.create_workspace(&feature, None, Ok(store), at(1)).expect("planned");
    let not_created = land_created(&repo, "state.toml", &feature, &creation, Err(Error::WorkspaceDoesNotExist));
    assert!(matches!(not_created, Err(Error::WorkspaceDoesNotExist)));
}

#[test]
fn successful_switch_saves_the_workspace_left() {
    let repo = open_repo();
    let feature = WorkspaceName::new("feature").expect("valid");
    let found = ResolvedWorkspacePath {
        path: String::from("/work/repo.feature"),
        state: WorkspacePathState::Confirmed,
        source: WorkspacePathSource::JjRecorded,
    };
    let landing = land_existing(&repo, "state.toml", &feature, Ok(found)).expect("lands");
    assert_eq!(landing.destination.display_path, "../repo.feature");
    assert!(!landing.destination.warn_fallback);
    let state = landing.settle(Ok(())).expect("arrived").expect("state to save");
    assert_eq!(state.path, "state.toml");
    assert_eq!(state.previous_workspace_text().as_deref(), Some("default"));

    let store = WorkspaceMetadataStore::empty("workspaces.toml");
    let creation = repo.create_workspace(&feature, None, Ok(store), at(1)).expect("planned");
    let landing = land_created(&repo, "state.toml", &feature, &creation, Ok(())).expect("lands");
    assert!(matches!(landing.settle(Err(Error::RepoName)), Err(Error::RepoName)));

    let home = land_primary(&repo, "state.toml", Some(String::from("/work/repo"))).expect("lands");
    assert!(home.state.is_none());
    let away = land_primary(&repo, "state.toml", None).expect("lands");
    assert_eq!(away.state.and_then(|s| s.previous_workspace_text()).as_deref(), Some("default"));
}
