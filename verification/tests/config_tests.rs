use jj_navi::repo::metadata::{
    normalized_recorded_path, parse_record_file, WorkspaceMetadataRecord, WorkspaceMetadataRecordFile,
    WorkspaceMetadataStore,
};
use jj_navi::shell::{
    inspect_managed_block, render_shell_install_block, upsert_managed_block, ManagedBlockState,
    MANAGED_BLOCK_END, MANAGED_BLOCK_START,
};
use jj_navi::types::{ShellKind, Timestamp, WorkspaceName, WorkspaceTemplate};

#[test]
fn updates_existing_managed_block() {
    let existing = format!("line before\n{MANAGED_BLOCK_START}\nold\n{MANAGED_BLOCK_END}\nline after\n");
    let block = format!("{MANAGED_BLOCK_START}\nnew\n{MANAGED_BLOCK_END}\n");

    let updated = upsert_managed_block(&existing, &block, ".bashrc").expect("update managed block");

    assert!(updated.contains("line before"));
    assert!(updated.contains("line after"));
    assert!(updated.contains("new"));
    assert!(!updated.contains("old"));
}

#[test]
fn rejects_duplicated_managed_block_markers() {
    let existing = format!("{MANAGED_BLOCK_START}\nold\n{MANAGED_BLOCK_START}\nnew\n{MANAGED_BLOCK_END}\n");

    assert_eq!(
        inspect_managed_block(&existing),
        ManagedBlockState::Invalid("managed block markers are duplicated")
    );
}

#[test]
fn distinguishes_record_presence_from_recorded_path() {
    let workspace = WorkspaceName::new("feature-auth").expect("valid workspace");
    let store = WorkspaceMetadataStore {
        path: String::from("workspaces.toml"),
        records: vec![WorkspaceMetadataRecord {
            name: workspace.clone(),
            path: None,
            created_by_navi: true,
            created_at: Timestamp { unix_seconds: 0, nanosecond: 0, offset_seconds: 0 },
            template: WorkspaceTemplate::default(),
            revision: None,
        }],
    };

    assert!(store.contains_workspace(&workspace));
    assert_eq!(store.workspace_path(&workspace), None);
}

#[test]
fn normalizes_empty_recorded_path_strings() {
    let record = parse_record_file(
        WorkspaceMetadataRecordFile {
            name: String::from("feature-auth"),
            path: Some(String::new()),
            created_by_navi: true,
            created_at: String::from("1970-01-01T00:00:00Z"),
            template: String::from("../{repo}.{workspace}"),
            revision: String::new(),
        },
        "workspaces.toml",
    )
    .expect("parse metadata record");

    assert_eq!(record.path, None);
}

#[test]
fn rejects_empty_recorded_paths_when_serializing() {
    assert_eq!(normalized_recorded_path(Some("")), None);
}

#[test]
fn installing_twice_keeps_one_managed_block() {
    let block = render_shell_install_block("navi", ShellKind::Zsh);
    for existing in ["", "export PATH=/bin", "alias ll='ls -l'\n\n"] {
        let once = upsert_managed_block(existing, &block, ".zshrc").expect("first install");
        let twice = upsert_managed_block(&once, &block, ".zshrc").expect("second install");
        assert_eq!(twice, once);
        assert_eq!(once.matches(MANAGED_BLOCK_START).count(), 1);
        assert_eq!(once.matches(MANAGED_BLOCK_END).count(), 1);
        assert!(matches!(inspect_managed_block(&once), ManagedBlockState::Present { .. }));
    }
}

#[test]
fn reinstalling_replaces_an_old_block_in_place() {
    let block = render_shell_install_block("nv", ShellKind::Bash);
    let existing = format!("before\n{MANAGED_BLOCK_START}\nold\n{MANAGED_BLOCK_END}\n\n\nafter");
    let once = upsert_managed_block(&existing, &block, ".bashrc").expect("first install");
    assert_eq!(once, format!("before\n{block}after\n"));
    let twice = upsert_managed_block(&once, &block, ".bashrc").expect("second install");
    assert_eq!(twice, once);
}

#[test]
fn managed_block_offsets_count_bytes() {
    let existing = format!("# café\n{MANAGED_BLOCK_START}\nx\n{MANAGED_BLOCK_END}\n");
    let start = existing.find(MANAGED_BLOCK_START).expect("start");
    let end = existing.find(MANAGED_BLOCK_END).expect("end") + MANAGED_BLOCK_END.len();
    assert_eq!(start, 8);
    assert_eq!(inspect_managed_block(&existing), ManagedBlockState::Present { start, end });
    assert_eq!(&existing[start..end], format!("{MANAGED_BLOCK_START}\nx\n{MANAGED_BLOCK_END}"));
}

#[test]
fn install_is_idempotent_for_names_with_hash() {
    let block = render_shell_install_block("nav#i", ShellKind::Bash);
    let existing = String::from("export A=1\n# comment\n");
    let once = upsert_managed_block(&existing, &block, ".bashrc").expect("first install");
    let twice = upsert_managed_block(&once, &block, ".bashrc").expect("second install");
    assert_eq!(once, twice);
    match inspect_managed_block(&once) {
        ManagedBlockState::Present { start, end } => assert_eq!(&once[start..end], &block[..block.len() - 1]),
        other => panic!("unexpected state {other:?}"),
    }
}
