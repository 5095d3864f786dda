use icthub_server::json::{json_array_of, json_string};
use icthub_server::auth::FeiyueIdentity;
use icthub_server::error::AppError;
use icthub_server::projects::{
    check_import_commit, check_slug_available, is_listed, keywords_json, parse_keywords,
    plan_import_commit, project_resource, search_needle, valid_slug, validate_list_category,
    wants_generated_cover, ProjectResourceInput, ProjectResourceRow, ProjectWriteInput,
    PROJECT_CATEGORIES,
};

fn valid_input() -> ProjectWriteInput {
    ProjectWriteInput {
        slug: "lab-tool".to_owned(),
        name: "实验室工具".to_owned(),
        summary: "用于测试项目写入。".to_owned(),
        primary_category: "传统软件".to_owned(),
        highest_award: None,
        status: "研发中".to_owned(),
        critique: String::new(),
        owner_name: None,
        source_name: None,
        tags: vec!["Web".to_owned(), " Web ".to_owned()],
        resources: vec![ProjectResourceInput {
            id: None,
            resource_type: "github".to_owned(),
            title: "代码".to_owned(),
            url: Some("https://github.com/example/repo".to_owned()),
            source_import_job_id: None,
            source_artifact_id: None,
        }],
        cover_mode: None,
        cover_title: None,
        cover_subtitle: None,
        cover_keywords: vec![],
        cover_tone: None,
    }
}

#[test]
fn categories_are_exactly_the_five_product_categories() {
    assert_eq!(
        PROJECT_CATEGORIES,
        ["传统软件", "智能硬件", "AI 软件", "数字媒体", "研究成果"]
    );
    for category in PROJECT_CATEGORIES {
        let mut input = valid_input();
        input.primary_category = category.to_owned();
        assert!(input.normalized().is_ok());
    }
    let mut old = valid_input();
    old.primary_category = "工具项目".to_owned();
    assert!(old.normalized().is_err());
}

#[test]
fn normalizes_and_deduplicates_project_input() {
    let input = valid_input().normalized().expect("valid project");
    assert_eq!(input.tags, vec!["Web"]);
    assert_eq!(input.resources[0].resource_type, "github");
}

#[test]
fn rejects_invalid_slug() {
    let mut input = valid_input();
    input.slug = "中文 路径".to_owned();
    assert!(input.normalized().is_err());
}

fn bad_request(result: Result<ProjectWriteInput, AppError>) -> String {
    match result {
        Err(AppError::BadRequest(message)) => message,
        other => panic!("expected a bad request, got {:?}", other.map(|p| p.slug)),
    }
}

#[test]
fn each_rule_has_its_message() {
    let mut input = valid_input();
    input.name = "   ".to_owned();
    assert_eq!(bad_request(input.normalized()), "项目名和简介不能为空");
    let mut input = valid_input();
    input.name = "名".repeat(121);
    assert_eq!(bad_request(input.normalized()), "项目名或简介过长");
    let mut input = valid_input();
    input.status = " ".to_owned();
    assert_eq!(bad_request(input.normalized()), "项目状态不能为空");
    let mut input = valid_input();
    input.cover_mode = Some("photo".to_owned());
    assert_eq!(bad_request(input.normalized()), "封面模式不受支持");
    let mut input = valid_input();
    input.resources[0].resource_type = " Wiki ".to_owned();
    assert_eq!(bad_request(input.normalized()), "资源类型 wiki 不受支持");
    let mut input = valid_input();
    input.resources[0].source_import_job_id = Some("job".to_owned());
    assert_eq!(bad_request(input.normalized()), "导入资源必须同时提供任务编号和附件编号");
}

#[test]
fn normalization_trims_and_limits() {
    let mut input = valid_input();
    input.slug = "  Lab-Tool ".to_owned();
    input.highest_award = Some("   ".to_owned());
    input.cover_mode = Some(" Resource ".to_owned());
    input.tags = (0..30).map(|i| format!(" tag{i} ")).collect();
    input.cover_keywords = vec![" a".to_owned(), " ".to_owned(), "b".to_owned(), "c".to_owned(), "d".to_owned()];
    let out = input.normalized().expect("valid");
    assert_eq!(out.slug, "lab-tool");
    assert_eq!(out.highest_award, None);
    assert_eq!(out.cover_mode.as_deref(), Some("resource"));
    assert_eq!(out.tags.len(), 20);
    assert_eq!(out.tags[0], "tag0");
    assert_eq!(out.cover_keywords, vec!["a", "b", "c"]);
}

#[test]
fn slugs() {
    assert!(valid_slug("lab-tool-2"));
    assert!(!valid_slug("-lab"));
    assert!(!valid_slug("lab-"));
    assert!(!valid_slug(""));
    assert!(!valid_slug(&"a".repeat(81)));
    assert!(valid_slug(&"a".repeat(80)));
}

#[test]
fn listing_filters() {
    assert!(validate_list_category(&Some("AI 软件".to_owned())).is_ok());
    assert!(validate_list_category(&Some("工具".to_owned())).is_err());
    let needle = search_needle(&Some("  Robot ".to_owned()));
    assert_eq!(needle.as_deref(), Some("robot"));
    assert_eq!(search_needle(&Some("   ".to_owned())), None);
    assert!(is_listed(&None, &needle, "智能硬件", "巡检ROBOT", "简介", &None));
    assert!(!is_listed(&Some("AI 软件".to_owned()), &None, "智能硬件", "n", "s", &None));
    assert!(is_listed(&None, &Some("金奖".to_owned()), "智能硬件", "n", "s", &Some("省赛金奖".to_owned())));
    assert!(!is_listed(&None, &Some("金奖".to_owned()), "智能硬件", "n", "s", &None));
}

fn member(sid: &str, superadmin: bool) -> FeiyueIdentity {
    FeiyueIdentity {
        sid: sid.to_owned(),
        name: String::new(),
        nickname: String::new(),
        role: if superadmin { "superadmin".to_owned() } else { "user".to_owned() },
        is_admin: superadmin,
        is_super_admin: superadmin,
        is_lab_member: true,
    }
}

#[test]
fn import_commits() {
    assert!(matches!(check_import_commit(&member("a", false), "b", "completed"), Err(AppError::Forbidden)));
    assert!(check_import_commit(&member("a", true), "b", "completed").is_ok());
    assert!(matches!(check_import_commit(&member("a", false), "a", "queued"), Err(AppError::Conflict(m)) if m == "导入任务尚未整理完成"));
    assert_eq!(plan_import_commit(Some("p1".into()), Some("p1".into()), "s", "new".into()).unwrap(), ("p1".to_owned(), false));
    assert!(matches!(plan_import_commit(Some("p1".into()), Some("p2".into()), "lab", "new".into()), Err(AppError::Conflict(m)) if m == "项目路径 lab 已被其他项目使用"));
    assert_eq!(plan_import_commit(None, Some("p2".into()), "s", "new".into()).unwrap(), ("p2".to_owned(), false));
    assert_eq!(plan_import_commit(None, None, "s", "new".into()).unwrap(), ("new".to_owned(), true));
    assert!(matches!(check_slug_available("lab", &Some("p2".into()), &Some("p1".into())), Err(AppError::Conflict(m)) if m == "项目路径 lab 已存在"));
    assert!(check_slug_available("lab", &Some("p1".into()), &Some("p1".into())).is_ok());
    assert!(check_slug_available("lab", &None, &None).is_ok());
}

#[test]
fn stored_values() {
    let mut input = valid_input();
    assert!(wants_generated_cover(&input));
    input.cover_mode = Some("manual".to_owned());
    assert!(!wants_generated_cover(&input));
    let keywords = vec!["a".to_owned(), "引号\"".to_owned()];
    assert_eq!(parse_keywords(&keywords_json(&keywords)), keywords);
    assert_eq!(keywords_json(&keywords), "[\"a\",\"引号\\\"\"]");
    assert!(parse_keywords("not json").is_empty());
    let resource = project_resource(
        "lab",
        ProjectResourceRow {
            id: "r1".to_owned(),
            resource_type: "document".to_owned(),
            title: "文档".to_owned(),
            url: None,
            object_key: Some("p/r1/original.pdf".to_owned()),
            source_name: None,
            mime_type: None,
            size_bytes: Some(3),
            display_path: None,
            preview_kind: Some("pdf".to_owned()),
        },
    );
    assert_eq!(resource.content_url.as_deref(), Some("/api/v1/projects/lab/resources/r1/content"));
    assert_eq!(resource.download_url.as_deref(), Some("/api/v1/projects/lab/resources/r1/download"));
}

#[test]
fn normalizing_twice_is_normalizing_once() {
    let mut input = valid_input();
    input.name = "  实验室工具 ".to_owned();
    input.owner_name = Some("  张三 ".to_owned());
    input.cover_title = Some("   ".to_owned());
    input.tags = vec![" Web".to_owned(), "web".to_owned(), "".to_owned(), "AI ".to_owned()];
    input.cover_keywords = vec![" a ".to_owned(), " ".to_owned(), "b".to_owned(), "c".to_owned(), "d".to_owned()];
    let once = input.normalized().expect("valid");
    let twice = once.clone().normalized().expect("still valid");
    assert_eq!(once.name, "实验室工具");
    assert_eq!(twice.name, once.name);
    assert_eq!(twice.owner_name, Some("张三".to_owned()));
    assert_eq!(twice.cover_title, None);
    assert_eq!(once.tags, vec!["Web", "AI"]);
    assert_eq!(twice.tags, once.tags);
    assert_eq!(once.cover_keywords, vec!["a", "b", "c"]);
    assert_eq!(twice.cover_keywords, once.cover_keywords);
    assert_eq!(twice.slug, once.slug);
}

#[test]
fn a_normalized_project_comes_back_unchanged() {
    let mut input = valid_input();
    input.slug = " Lab-Tool ".to_owned();
    input.cover_mode = Some(" TEXT ".to_owned());
    input.resources[0].resource_type = " GitHub ".to_owned();
    input.resources[0].title = " 代码 ".to_owned();
    input.resources[0].id = Some("  ".to_owned());
    let once = input.normalized().expect("valid");
    assert_eq!(once.slug, "lab-tool");
    assert_eq!(once.cover_mode.as_deref(), Some("text"));
    assert_eq!(once.resources[0].resource_type, "github");
    let twice = once.clone().normalized().expect("still valid");
    assert_eq!(twice.slug, once.slug);
    assert_eq!(twice.cover_mode, once.cover_mode);
    assert_eq!(twice.resources[0].resource_type, once.resources[0].resource_type);
    assert_eq!(twice.resources[0].title, once.resources[0].title);
    assert_eq!(twice.resources[0].id, once.resources[0].id);
    assert_eq!(twice.tags, once.tags);
}

#[test]
fn json_text_matches_serde_json() {
    let mut sample: String = (0u32..0x80).filter_map(char::from_u32).collect();
    sample.push_str("é中文\u{2028}😀");
    assert_eq!(json_string(&sample), serde_json::to_string(&sample).unwrap());
    assert_eq!(json_string("a\"b\\c\n\u{1}"), "\"a\\\"b\\\\c\\n\\u0001\"");
    let items = vec!["x".to_owned(), "y\tz".to_owned(), String::new()];
    assert_eq!(json_array_of(&items), serde_json::to_string(&items).unwrap());
    assert_eq!(json_array_of(&Vec::new()), "[]");
}
