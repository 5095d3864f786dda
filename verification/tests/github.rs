use icthub_server::auth::FeiyueIdentity;
use icthub_server::error::AppError;
use icthub_server::github::{
    command_error_detail, existing_repo_action, has_secret_marker, ignored_directory, is_archive,
    numbered_repo_name, publication_slug, repository_is_empty, sensitive_file_name,
    source_reference_path, token_file_mode_ok, token_from_file, user_facing_publish_error,
    valid_owner, check_publication, secret_content, ExistingRepoAction, GhCliPublisher, GitHubPublishConfig,
    PublishConfigError, SourceRefError, draft_slug_of, read_repo_view, source_ref_from_results,
};

#[test]
fn command_errors_redact_the_github_token() {
    let detail = command_error_detail(
        b"authentication failed for github_pat_secret_value",
        Some("github_pat_secret_value"),
    );

    assert_eq!(detail, "authentication failed for [redacted]");
}

#[test]
fn empty_command_output_is_named() {
    assert_eq!(command_error_detail(b"  \n", None), "no stderr output");
    assert_eq!(command_error_detail(b"secret", Some("secret")), "[redacted]");
    assert_eq!(command_error_detail(b" boom ", Some("")), "boom");
}

#[test]
fn enabled_publisher_requires_a_token_file() {
    let config = GitHubPublishConfig {
        enabled: true,
        owner: Some("xjuIcthub".to_owned()),
        repo_prefix: "ict".to_owned(),
        token_file: None,
        gh_bin: "gh".to_owned(),
        git_bin: "git".to_owned(),
        runtime_root: "data/github-runs".to_owned(),
        timeout_secs: 60,
    };

    assert!(GhCliPublisher::new(config).is_err());
}

#[test]
fn publisher_owner_rules() {
    assert!(valid_owner("xjuIcthub"));
    assert!(valid_owner("lab-42"));
    assert!(!valid_owner(""));
    assert!(!valid_owner("bad owner"));
    let mut config = GhCliPublisher::disabled().config;
    config.enabled = true;
    config.owner = Some("bad/owner".to_owned());
    config.token_file = Some("/run/token".to_owned());
    assert!(matches!(GhCliPublisher::new(config.clone()), Err(PublishConfigError::InvalidOwner)));
    config.owner = Some("lab".to_owned());
    assert!(GhCliPublisher::new(config).is_ok());
    assert!(!GhCliPublisher::disabled().enabled());
}

#[test]
fn empty_github_repository_is_detected_for_recovery_push() {
    let metadata = r#"{"description":"ICTHub import job example","isPrivate":true,"defaultBranchRef":{"name":""}}"#;
    let view = read_repo_view(metadata.as_bytes(), "ICTHub import job example", "lab/repo").unwrap();
    assert!(view.same_job && view.is_private);
    assert!(repository_is_empty(&view.default_branch));
    assert_eq!(view.url, "https://github.com/lab/repo");
    let main = r#"{"defaultBranchRef":{"name":"main"}}"#;
    let view = read_repo_view(main.as_bytes(), "ICTHub import job example", "lab/repo").unwrap();
    assert!(!repository_is_empty(&view.default_branch));
    assert!(repository_is_empty(&Some(String::new())));
    assert!(!repository_is_empty(&Some("main".to_owned())));
    assert_eq!(existing_repo_action(true, true, Some(String::new())), ExistingRepoAction::PushToEmpty);
    assert_eq!(existing_repo_action(true, true, Some("main".to_owned())), ExistingRepoAction::KeepRemoteHead);
    assert_eq!(existing_repo_action(true, false, None), ExistingRepoAction::Refuse);
}

#[test]
fn repository_names_are_numbered() {
    assert_eq!(numbered_repo_name("ict", 7, "lab-tool"), "ict-0007-lab-tool");
    assert_eq!(numbered_repo_name("ict", 12345, "x"), "ict-12345-x");
    assert_eq!(numbered_repo_name("ict", -3, "x"), "ict--003-x");
    let long = "a".repeat(200);
    assert_eq!(numbered_repo_name("ict", 1, &long).chars().count(), 100);
    assert_eq!(publication_slug(None, "12345678-0000"), "import-12345678");
    assert_eq!(publication_slug(Some("lab".to_owned()), "12345678"), "lab");
}

#[test]
fn tokens_must_be_one_word() {
    assert_eq!(token_from_file(" ghp_abc \n").unwrap(), "ghp_abc");
    assert!(token_from_file("   ").is_err());
    assert!(token_from_file("two words").is_err());
    assert!(token_file_mode_ok(0o600));
    assert!(!token_file_mode_ok(0o640));
}

#[test]
fn what_may_be_published() {
    assert!(matches!(source_reference_path("https://github.com/a/b"), Err(SourceRefError::Remote)));
    assert!(matches!(source_reference_path("../etc"), Err(SourceRefError::Unsafe)));
    assert_eq!(source_reference_path("project\\source.zip").unwrap(), "project/source.zip");
    assert!(is_archive("project/source.ZIP"));
    assert!(!is_archive("project/source.tar"));
    assert!(ignored_directory("Node_Modules"));
    assert!(!ignored_directory("src"));
    assert!(sensitive_file_name(".env"));
    assert!(sensitive_file_name(".env.local"));
    assert!(!sensitive_file_name(".env.example"));
    assert!(sensitive_file_name("server.PEM"));
    assert!(sensitive_file_name("id_rsa"));
    assert!(!sensitive_file_name("main.rs"));
    assert!(has_secret_marker("token: GHP_abcdef"));
    assert!(!has_secret_marker("fn main() {}"));
}

#[test]
fn publish_errors_for_members() {
    assert_eq!(
        user_facing_publish_error("source tree contains a secret-like file: .env"),
        "发布已停止：source tree contains a secret-like file: .env"
    );
    assert_eq!(
        user_facing_publish_error("gh repo create failed with status 1"),
        "GitHub 未能创建或推送私有仓库，请检查账号权限、组织授权和仓库名。"
    );
    assert_eq!(
        user_facing_publish_error("anything"),
        "私有源码仓库发布失败，请管理员查看 Worker 日志后重试。"
    );
}

fn member(sid: &str) -> FeiyueIdentity {
    FeiyueIdentity {
        sid: sid.to_owned(),
        name: String::new(),
        nickname: String::new(),
        role: "user".to_owned(),
        is_admin: false,
        is_super_admin: false,
        is_lab_member: true,
    }
}

#[test]
fn publication_requests_are_checked() {
    let me = member("s1");
    assert!(matches!(check_publication(&me, "s2", "completed", true, Some("o".into()), Some("x".into())), Err(AppError::Forbidden)));
    assert!(matches!(check_publication(&me, "s1", "agent_running", true, Some("o".into()), Some("x".into())), Err(AppError::Conflict(_))));
    assert!(matches!(check_publication(&me, "s1", "completed", false, Some("o".into()), Some("x".into())), Err(AppError::Conflict(m)) if m == "GitHub 私有仓库发布尚未配置"));
    let (owner, source) = check_publication(&me, "s1", "completed", true, Some("o".into()), Some("x".into())).unwrap();
    assert_eq!((owner.as_str(), source.as_str()), ("o", "x"));
}

#[test]
fn secret_content_skips_binary_files() {
    assert!(secret_content(b"export GITHUB_TOKEN=abc"));
    assert!(secret_content("密钥 ghp_0123".as_bytes()));
    assert!(!secret_content(b"\0ghp_0123"));
    assert!(!secret_content(b"plain readme"));
    assert!(secret_content(&[0xff, b' ', b's', b'k', b'-', b'p', b'r', b'o', b'j', b'-']));
}

#[test]
fn source_ref_prefers_codex_source_code() {
    let agent = r#"{"resources":{"sourceCode":[{"sourceRef":"project/source.zip"}]}}"#;
    assert_eq!(
        source_ref_from_results(Some(agent), None).as_deref(),
        Some("project/source.zip")
    );
}

#[test]
fn source_ref_falls_back_to_the_stored_draft() {
    let draft = r#"{"normalizedResources":{"sourceCode":[{"sourceRef":"a/src"},{"sourceRef":"b"}]}}"#;
    assert_eq!(source_ref_from_results(None, Some(draft)).as_deref(), Some("a/src"));
    let empty_agent = r#"{"resources":{"sourceCode":[]}}"#;
    assert_eq!(source_ref_from_results(Some(empty_agent), Some(draft)).as_deref(), Some("a/src"));
    assert_eq!(source_ref_from_results(Some("not json"), Some("{}")), None);
    assert_eq!(source_ref_from_results(None, None), None);
    let agent = r#"{"resources":{"sourceCode":[{"sourceRef":"codex/src"}]}}"#;
    assert_eq!(source_ref_from_results(Some(agent), Some(draft)).as_deref(), Some("codex/src"));
}

#[test]
fn draft_slug_comes_from_the_stored_draft() {
    assert_eq!(
        draft_slug_of(Some(r#"{"projectDraft":{"slug":"lab-tool"}}"#)).as_deref(),
        Some("lab-tool")
    );
    assert_eq!(draft_slug_of(Some(r#"{"projectDraft":{"slug":3}}"#)), None);
    assert_eq!(draft_slug_of(Some("[")), None);
    assert_eq!(draft_slug_of(None), None);
}

#[test]
fn repository_view_is_read_from_gh_output() {
    let other = r#"{"description":"someone else","isPrivate":false,"url":"https://github.com/lab/x","defaultBranchRef":null}"#;
    let view = read_repo_view(other.as_bytes(), "ICTHub import job j1", "lab/x").unwrap();
    assert!(!view.same_job);
    assert!(!view.is_private);
    assert_eq!(view.default_branch, None);
    assert_eq!(view.url, "https://github.com/lab/x");
    assert_eq!(existing_repo_action(view.same_job, view.is_private, view.default_branch), ExistingRepoAction::Refuse);
    assert!(read_repo_view(b"not json", "d", "lab/x").is_none());
}
