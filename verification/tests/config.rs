use icthub_server::config::{
    check_settings, megabytes, non_empty_setting, normalize_repo_prefix, parse_bool_setting,
    sqlite_file_path, valid_repo_prefix,
};

#[test]
fn boolean_settings() {
    assert_eq!(parse_bool_setting(" YES "), Some(true));
    assert_eq!(parse_bool_setting("off"), Some(false));
    assert_eq!(parse_bool_setting("maybe"), None);
}

#[test]
fn text_settings() {
    assert_eq!(non_empty_setting("X", None), Ok(None));
    assert_eq!(non_empty_setting("X", Some(" v ".to_owned())), Ok(Some("v".to_owned())));
    assert_eq!(non_empty_setting("X", Some("  ".to_owned())), Err("X must not be empty".to_owned()));
    assert_eq!(megabytes(500), 500 * 1024 * 1024);
    assert_eq!(normalize_repo_prefix(" ICT "), "ict");
    assert!(valid_repo_prefix("ict-2"));
    assert!(!valid_repo_prefix("ict_2"));
    assert!(!valid_repo_prefix(""));
}

#[test]
fn setting_combinations() {
    assert!(check_settings(false, false, false, false, false, false, false, false, "ict").is_ok());
    assert!(check_settings(true, true, false, true, false, false, false, false, "ict").is_err());
    assert!(check_settings(true, true, true, false, false, false, false, false, "ict").is_err());
    assert!(check_settings(true, true, true, false, true, false, false, false, "ict").is_ok());
    assert!(check_settings(false, false, false, false, false, true, true, false, "ict").is_err());
    assert_eq!(
        check_settings(false, false, false, false, false, false, false, false, "ICT"),
        Err("ICTHUB_GITHUB_REPO_PREFIX must use lowercase letters, digits, or hyphens".to_owned())
    );
}

#[test]
fn sqlite_paths() {
    assert_eq!(sqlite_file_path("sqlite://data/icthub.db?mode=rwc").as_deref(), Some("data/icthub.db"));
    assert_eq!(sqlite_file_path("sqlite://:memory:"), None);
    assert_eq!(sqlite_file_path("postgres://x"), None);
}
