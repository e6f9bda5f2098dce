use chunked_transfer::project_folders::{
    asset_folder, get_sync_rule, get_sync_status, model_file_name, normalize_project_name,
    project_folders, should_sync_file, SyncRule,
};

#[test]
fn group_code_moves_to_front() {
    assert_eq!(normalize_project_name("客户项目_Q1234567890"), "Q1234567890_客户项目");
    assert_eq!(normalize_project_name("a_b_Q12"), "Q12_a_b");
    assert_eq!(normalize_project_name("x_Q"), "Q_x");
    assert_eq!(normalize_project_name("_Q5"), "Q5_");
}

#[test]
fn name_without_code_is_kept() {
    assert_eq!(normalize_project_name("test"), "test");
    assert_eq!(normalize_project_name("proj_Q12a"), "proj_Q12a");
    assert_eq!(normalize_project_name("proj_12"), "proj_12");
    assert_eq!(normalize_project_name("proj_"), "proj_");
    assert_eq!(normalize_project_name(""), "");
}

#[test]
fn reserved_characters_are_replaced() {
    assert_eq!(normalize_project_name("name:bad*?"), "name_bad__");
    assert_eq!(normalize_project_name("A:B_Q9"), "Q9_A_B");
    assert_eq!(normalize_project_name("<\"|>"), "____");
}

#[test]
fn names_with_separators_are_kept_verbatim() {
    assert_eq!(normalize_project_name("a/b_Q1"), "a/b_Q1");
    assert_eq!(normalize_project_name("a\\b:c"), "a\\b:c");
}

#[test]
fn sync_rule_names() {
    assert_eq!(get_sync_rule("客户文件".to_string()), "download_only");
    assert_eq!(get_sync_rule("作品文件".to_string()), "bidirectional");
    assert_eq!(get_sync_rule("模型文件".to_string()), "manual_upload");
    assert_eq!(get_sync_rule("其他".to_string()), "unknown");
}

#[test]
fn sync_directions() {
    assert!(should_sync_file("客户文件".to_string(), false));
    assert!(!should_sync_file("客户文件".to_string(), true));
    assert!(should_sync_file("作品文件".to_string(), true));
    assert!(should_sync_file("作品文件".to_string(), false));
    assert!(!should_sync_file("模型文件".to_string(), false));
    assert!(!should_sync_file("模型文件".to_string(), true));
    assert!(!should_sync_file("works".to_string(), false));
}

#[test]
fn idle_sync_status() {
    let s = get_sync_status();
    assert!(!s.is_syncing);
    assert_eq!(s.last_sync, None);
    assert_eq!(s.pending_uploads, 0);
    assert_eq!(s.pending_downloads, 0);
}

#[test]
fn standard_folders() {
    let f = project_folders();
    assert_eq!(f.len(), 3);
    assert_eq!(f[0].name, "客户文件");
    assert_eq!(f[0].rule, SyncRule::DownloadOnly);
    assert_eq!(f[1].name, "作品文件");
    assert_eq!(f[1].rule, SyncRule::Bidirectional);
    assert_eq!(f[2].name, "模型文件");
    assert_eq!(f[2].rule, SyncRule::ManualUpload);
}

#[test]
fn asset_folders() {
    assert_eq!(asset_folder("works"), Some("作品文件".to_string()));
    assert_eq!(asset_folder("models"), Some("模型文件".to_string()));
    assert_eq!(asset_folder("customer"), Some("客户文件".to_string()));
    assert_eq!(asset_folder("Works"), None);
    assert_eq!(asset_folder(""), None);
}

#[test]
fn model_file_names() {
    assert_eq!(
        model_file_name("chair", Some("fbx"), "alice", "2024-05-06"),
        "云端_chair_alice_20240506.fbx"
    );
    assert_eq!(model_file_name("notes", None, "bob", "2024-5-6"), "云端_notes_bob_202456");
    assert_eq!(model_file_name("", Some(""), "", ""), "云端___.");
}
