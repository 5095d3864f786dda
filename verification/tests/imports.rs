use icthub_server::error::AppError;
use icthub_server::imports::archive::{
    archive_prefix, check_entry_count, copy_allowance, decoded_zip_entry_path, is_symlink_mode,
    nested_archive_dir_name, numbered_entry_name, record_copy, ArchiveError,
};
use icthub_server::imports::classify::artifact_kind;
use icthub_server::imports::draft::{
    analyze_context_only, append_extracted_preview, artifact_totals, build_fallback_analysis,
    import_context, insert_sorted, sort_artifacts, summary_sentence, ArtifactRecord, LinkInput,
};
use icthub_server::imports::fields::{explicit_field, explicit_tags, project_name_hint};
use icthub_server::imports::jobs::{
    check_cancellable, check_refinement, check_resent_chunk, claim_transition, heartbeat_interval_secs,
    parse_u64, plan_chunk, upload_progress, user_facing_agent_error, user_facing_worker_error,
    ChunkAction, ImportWorkerOptions, agent_completed_transition, agent_fallback_transition,
    cancel_transition, created_transition, uploads_complete_transition, CODEX_ENGINE, FALLBACK_ENGINE,
};
use icthub_server::imports::names::{
    clean_project_name, infer_project_name, is_zip_path, path_for_json, safe_upload_name, slugify,
};
use icthub_server::imports::requests::{
    link_display_name, link_provider, plan_import_source, validate_chunked_import, validate_links,
    ChunkedImportFileInput, ChunkedImportInput,
};

#[test]
fn categorizes_common_project_artifacts() {
    assert_eq!(artifact_kind("src/main.rs"), "code");
    assert_eq!(artifact_kind("docs/report.pdf"), "document");
    assert_eq!(artifact_kind("答辩.pptx"), "presentation");
    assert_eq!(artifact_kind("demo.mp4"), "video");
    assert_eq!(artifact_kind("poster.png"), "image");
}

#[test]
fn decodes_legacy_gbk_zip_names() {
    let (encoded, _, had_errors) = encoding_rs::GBK.encode("项目技术介绍/源码.zip");
    assert!(!had_errors);
    assert_eq!(
        decoded_zip_entry_path(encoded.as_ref()).expect("decoded GBK path"),
        "项目技术介绍/源码.zip"
    );
}

#[test]
fn unsafe_entry_names_are_refused() {
    assert_eq!(decoded_zip_entry_path(b"../evil.txt"), Err(ArchiveError::UnsafePath));
    assert_eq!(decoded_zip_entry_path(b"/etc/passwd"), Err(ArchiveError::UnsafePath));
    assert_eq!(decoded_zip_entry_path(b"dir\\file.txt").unwrap(), "dir/file.txt");
    assert!(is_symlink_mode(0o120777));
    assert!(!is_symlink_mode(0o100644));
}

#[test]
fn prompt_and_links_can_create_a_context_only_draft() {
    let build = analyze_context_only(
        "待识别项目",
        "12345678-0000-0000-0000-000000000000",
        "项目名：校园预约助手\nhttps://github.com/example/booking",
        "项目名：校园预约助手\nhttps://github.com/example/booking",
    );
    assert!(build.artifacts.is_empty());
    assert_eq!(
        build.analysis.project_draft.summary,
        "已收集项目简介与链接，等待进一步理解与确认。"
    );
    assert_eq!(build.analysis.project_draft.primary_category, "传统软件");
    assert!(build.analysis.project_draft.suggested_tags.is_empty());
    assert!(build.analysis.project_draft.owner_name.is_none());
    assert!(build.analysis.project_draft.source_name.is_none());
}

fn artifact(path: &str, kind: &str, size: u64) -> ArtifactRecord {
    ArtifactRecord {
        relative_path: path.to_owned(),
        artifact_kind: kind.to_owned(),
        mime_type: None,
        size_bytes: size,
        extractor: "none".to_owned(),
        metadata_json: "{}".to_owned(),
        text_excerpt: None,
        is_cover_candidate: false,
    }
}

#[test]
fn fallback_draft_from_material() {
    let artifacts = vec![
        artifact("cotton-ai/README.md", "document", 10),
        artifact("cotton-ai/src/main.py", "code", 5),
        artifact("cotton-ai/poster.png", "image", 7),
        artifact("cotton-ai/src/util.py", "code", 6),
    ];
    let skipped = vec!["node_modules".to_owned(), "target".to_owned()];
    let analysis = build_fallback_analysis(
        "cotton ai",
        "12345678-0000-0000-0000-000000000000",
        &artifacts,
        "基于 YOLO 和 OpenCV 的棉花病虫害识别平台",
        &skipped,
        "标签：Web、AI核心、未知\n负责人：张三\n来源：课程项目",
    );
    let draft = &analysis.project_draft;
    assert_eq!(draft.name, "cotton ai");
    assert_eq!(draft.slug, "cotton-ai");
    assert_eq!(draft.primary_category, "AI 软件");
    assert_eq!(draft.suggested_tags, vec!["Web", "AI核心"]);
    assert_eq!(draft.owner_name.as_deref(), Some("张三"));
    assert_eq!(draft.source_name.as_deref(), Some("课程项目"));
    assert_eq!(draft.status, "待确认");
    let kinds: Vec<(&str, usize, u64)> = analysis
        .artifact_summary
        .iter()
        .map(|s| (s.kind.as_str(), s.count, s.total_bytes))
        .collect();
    assert_eq!(kinds, vec![("code", 2, 11), ("document", 1, 10), ("image", 1, 7)]);
    assert_eq!(draft.summary, "项目材料中识别到2 个源码文件、1 个文档、1 个图片，等待进一步理解与确认。");
    assert_eq!(analysis.warnings.len(), 3);
    assert_eq!(analysis.warnings[2], "为控制体积与风险，已跳过生成目录：node_modules、target。");
}

#[test]
fn totals_and_sentences() {
    let totals = artifact_totals(&[artifact("a", "video", 1), artifact("b", "archive", 2), artifact("c", "video", 3)]);
    assert_eq!(totals.len(), 2);
    assert_eq!(totals[0].kind, "archive");
    assert_eq!((totals[1].count, totals[1].total_bytes), (2, 4));
    assert_eq!(summary_sentence(&totals), "项目材料中识别到1 个压缩文件、2 个视频，等待进一步理解与确认。");
    assert_eq!(summary_sentence(&[]), "已收集项目简介与链接，等待进一步理解与确认。");
}

#[test]
fn sorted_sets_keep_one_of_each() {
    let mut set: Vec<String> = Vec::new();
    for name in ["target", "node_modules", ".git", "target"] {
        insert_sorted(&mut set, name.to_owned());
    }
    assert_eq!(set, vec![".git", "node_modules", "target"]);
}

#[test]
fn fields_from_the_project_text() {
    let prompt = "  项目名称 ：  校园预约助手。第二句\n负责人: 张三；李四\n奖项：\n获奖：省赛一等奖";
    assert_eq!(project_name_hint(prompt), "校园预约助手");
    assert_eq!(project_name_hint("没有名字"), "待识别项目");
    assert_eq!(explicit_field(prompt, &["负责人"]).as_deref(), Some("张三"));
    assert_eq!(explicit_field(prompt, &["最高奖项", "获奖", "奖项"]).as_deref(), Some("省赛一等奖"));
    assert_eq!(explicit_field(prompt, &["来源"]), None);
    assert_eq!(explicit_tags("标签：web, nlp | 机器人 / Web / 教育"), vec!["web", "nlp", "机器人"]);
    assert!(explicit_tags("无标签").is_empty());
}

#[test]
fn project_paths_from_names() {
    assert_eq!(slugify("Cotton AI -- Detector!", "12345678"), "cotton-ai-detector");
    assert_eq!(slugify("棉花识别", "abcdef12-0000"), "import-abcdef12");
    assert_eq!(slugify("棉花识别", "abc"), "import-abc");
    assert_eq!(slugify(&"ab ".repeat(40), "x").chars().count(), 72);
    let slug = slugify("__Hello__World__", "x");
    assert_eq!(slug, "hello-world");
}

#[test]
fn project_names_from_files() {
    assert_eq!(clean_project_name("cotton_ai-v2  final"), "cotton ai v2 final");
    assert_eq!(clean_project_name(" _- "), "待识别项目");
    assert_eq!(infer_project_name("cotton-ai.zip", &vec!["cotton-ai".to_owned()]), "cotton ai");
    assert_eq!(infer_project_name("cotton-ai.zip", &vec!["a".to_owned(), "b".to_owned()]), "cotton ai");
    assert_eq!(infer_project_name("x.zip", &vec!["README.md".to_owned()]), "x");
}

#[test]
fn upload_names() {
    assert_eq!(safe_upload_name("C:\\Users\\me\\报告.pdf"), "报告.pdf");
    assert_eq!(safe_upload_name("a/b/c.txt"), "c.txt");
    assert_eq!(safe_upload_name(".."), "attachment");
    assert_eq!(safe_upload_name(". ."), "attachment");
    assert_eq!(safe_upload_name("bad\u{7}name"), "badname");
    assert!(is_zip_path("材料.ZIP"));
    assert!(!is_zip_path("zip"));
    assert_eq!(path_for_json("./a//b/../c"), "a/b/c");
}

#[test]
fn job_context_and_corpus() {
    let links = vec![LinkInput { url: "https://github.com/a/b".to_owned(), title: None }];
    assert_eq!(
        import_context(" 简介 ", &links),
        "用户提供的项目简介：\n简介\n\n用户提供的项目链接：\n- https://github.com/a/b\n"
    );
    assert_eq!(import_context("  ", &[]), "");
    let mut corpus = String::from("起始");
    append_extracted_preview("a.md", "正文", &mut corpus);
    assert_eq!(corpus, "起始\n--- a.md ---\n正文");
}

#[test]
fn links_are_checked() {
    let ok = vec![LinkInput { url: " https://github.com/a/b ".to_owned(), title: Some("  ".to_owned()) }];
    assert!(validate_links(&ok).is_ok());
    assert_eq!(link_display_name(&ok[0]), " https://github.com/a/b ");
    let ftp = vec![LinkInput { url: "ftp://x.test/a".to_owned(), title: None }];
    assert!(matches!(validate_links(&ftp), Err(AppError::BadRequest(m)) if m == "链接只允许 HTTP 或 HTTPS"));
    let junk = vec![LinkInput { url: "not a url".to_owned(), title: None }];
    assert!(matches!(validate_links(&junk), Err(AppError::BadRequest(m)) if m == "链接格式不正确：not a url"));
    assert_eq!(link_provider("https://Gist.GitHub.com/x"), "github");
    assert_eq!(link_provider("https://pan.baidu.com/s/1"), "baidu");
    assert_eq!(link_provider("https://example.com"), "web");
    assert_eq!(link_provider("nonsense"), "web");
}

#[test]
fn sources_of_new_jobs() {
    let one = vec!["cotton.zip".to_owned()];
    assert_eq!(plan_import_source(&one, &[], "").unwrap(), ("cotton.zip".to_owned(), "zip".to_owned()));
    let two = vec!["a.pdf".to_owned(), "b.mp4".to_owned()];
    assert_eq!(plan_import_source(&two, &[], "").unwrap(), ("a.pdf 等 2 个附件".to_owned(), "mixed".to_owned()));
    let links = vec![LinkInput { url: "https://x.test".to_owned(), title: None }];
    assert_eq!(plan_import_source(&vec![], &links, "").unwrap(), ("https://x.test".to_owned(), "link".to_owned()));
    assert_eq!(plan_import_source(&vec![], &[], "简介").unwrap(), ("项目简介".to_owned(), "prompt".to_owned()));
    assert!(matches!(plan_import_source(&vec![], &[], "  "), Err(AppError::BadRequest(_))));
}

#[test]
fn chunked_imports_are_checked() {
    let input = ChunkedImportInput {
        files: vec![
            ChunkedImportFileInput { name: "a".to_owned(), size_bytes: 10, mime_type: None },
            ChunkedImportFileInput { name: "b".to_owned(), size_bytes: u64::MAX, mime_type: None },
        ],
        links: vec![],
        prompt: String::new(),
    };
    assert!(matches!(validate_chunked_import(&input, 100), Err(AppError::BadRequest(m)) if m == "附件总大小超过上传限制"));
    let small = ChunkedImportInput {
        files: vec![ChunkedImportFileInput { name: "a".to_owned(), size_bytes: 3 * 1024 * 1024, mime_type: None }],
        links: vec![],
        prompt: String::new(),
    };
    assert!(matches!(validate_chunked_import(&small, 2 * 1024 * 1024), Err(AppError::BadRequest(m)) if m == "附件总大小超过上传限制（2 MB）"));
    assert_eq!(validate_chunked_import(&small, 4 * 1024 * 1024).unwrap(), 3 * 1024 * 1024);
    let empty = ChunkedImportInput { files: vec![], links: vec![], prompt: String::new() };
    assert!(validate_chunked_import(&empty, 1).is_err());
}

#[test]
fn upload_progress_stays_between_one_and_eight() {
    assert_eq!(upload_progress(0, 0), 8);
    assert_eq!(upload_progress(0, 100), 1);
    assert_eq!(upload_progress(50, 100), 4);
    assert_eq!(upload_progress(100, 100), 8);
    assert_eq!(upload_progress(u64::MAX, 1), 8);
    let mut last = 0;
    for received in 0..=100 {
        let p = upload_progress(received, 100);
        assert!(p >= last && (1..=8).contains(&p));
        last = p;
    }
}

#[test]
fn chunks_are_appended_or_verified() {
    assert_eq!(plan_chunk("uploading", 10, "src/a.bin", 0, 4, 0).unwrap(), (ChunkAction::Append, 4));
    assert_eq!(plan_chunk("uploading", 10, "src/a.bin", 0, 4, 4).unwrap(), (ChunkAction::Verify, 4));
    assert!(matches!(plan_chunk("uploading", 10, "src/a.bin", 8, 4, 8), Err(AppError::BadRequest(m)) if m == "分片超过附件声明大小"));
    assert!(matches!(plan_chunk("uploading", 10, "src/a.bin", 6, 1, 4), Err(AppError::Conflict(m)) if m == "上传偏移量不连续，服务器当前已接收 4 字节"));
    assert!(matches!(plan_chunk("queued", 10, "src/a.bin", 0, 1, 0), Err(AppError::Conflict(_))));
    assert!(matches!(plan_chunk("uploading", 10, "../a.bin", 0, 1, 0), Err(AppError::BadRequest(_))));
    assert!(matches!(plan_chunk("uploading", 10, "a", u64::MAX, 1, 0), Err(AppError::BadRequest(m)) if m == "上传偏移量无效"));
    assert!(check_resent_chunk(b"abc", b"abc").is_ok());
    assert!(check_resent_chunk(b"abc", b"abd").is_err());
    assert_eq!(parse_u64("+42"), Some(42));
    assert_eq!(parse_u64("18446744073709551615"), Some(u64::MAX));
    assert_eq!(parse_u64("18446744073709551616"), None);
    assert_eq!(parse_u64(""), None);
    assert_eq!(parse_u64("-1"), None);
    assert_eq!(parse_u64(" 1"), None);
}

#[test]
fn job_states() {
    assert!(check_cancellable("queued").is_ok());
    for ended in ["completed", "failed", "cancelled"] {
        assert!(matches!(check_cancellable(ended), Err(AppError::Conflict(m)) if m == "该整理任务已经结束"));
    }
    assert_eq!(check_refinement("  补充  ").unwrap(), "补充");
    assert!(check_refinement("  ").is_err());
    let claim = claim_transition("agent_running", "worker-1");
    assert_eq!((claim.status.as_str(), claim.progress), ("agent_running", 84));
    assert_eq!(claim.message, "任务已由 worker-1 领取");
    let options = ImportWorkerOptions::new(10, 5);
    assert!(options.worker_id.starts_with("worker-"));
    assert_eq!((options.poll_interval_ms, options.lease_duration_secs), (50, 30));
    assert_eq!(heartbeat_interval_secs(120), 40);
    assert_eq!(heartbeat_interval_secs(20), 10);
}

#[test]
fn errors_for_members() {
    assert_eq!(user_facing_worker_error("uploaded file is not a valid ZIP"), "文件不是有效的 ZIP 压缩包");
    assert_eq!(user_facing_worker_error("archive contains too many entries"), "压缩包内文件数量超过限制");
    assert_eq!(user_facing_worker_error("other"), "解析失败，请检查压缩包后重试");
    assert_eq!(user_facing_agent_error("Codex Timed Out after 600 seconds"), "Codex 分析超时，已保留本地整理草稿，可稍后重试。");
    assert_eq!(user_facing_agent_error("Codex final output is not valid JSON"), "Codex 返回的草稿格式不正确，已保留本地整理草稿。");
}

#[test]
fn unpacking_limits_and_names() {
    assert_eq!(copy_allowance(0, 1000), Ok(1000));
    assert_eq!(copy_allowance(1000, 1000), Err(ArchiveError::SizeLimit));
    assert_eq!(copy_allowance(0, u64::MAX), Ok(128 * 1024 * 1024));
    let mut total = 10;
    assert_eq!(record_copy(5, 4, &mut total, 100), Err(ArchiveError::OversizedFile));
    assert_eq!(record_copy(4, 4, &mut total, 100), Ok(()));
    assert_eq!(total, 14);
    assert_eq!(check_entry_count(4999, 1), Ok(()));
    assert_eq!(check_entry_count(4999, 2), Err(ArchiveError::TooManyEntries));
    assert_eq!(numbered_entry_name(0, "README.md"), "01-README.md");
    assert_eq!(numbered_entry_name(11, "a"), "12-a");
    assert_eq!(archive_prefix(1, "源码.zip"), "02-源码");
    assert_eq!(nested_archive_dir_name("materials/source.zip"), "source.__contents");
}

#[test]
fn artifacts_sort_by_path_and_keep_equal_paths_in_order() {
    let mut second_a = artifact("a/x.md", "document", 2);
    second_a.extractor = "second".to_owned();
    let sorted = sort_artifacts(vec![
        artifact("b.rs", "code", 1),
        artifact("a/x.md", "document", 1),
        artifact("A.txt", "document", 1),
        second_a,
        artifact("项目.pptx", "presentation", 1),
    ]);
    let paths: Vec<&str> = sorted.iter().map(|a| a.relative_path.as_str()).collect();
    assert_eq!(paths, vec!["A.txt", "a/x.md", "a/x.md", "b.rs", "项目.pptx"]);
    assert_eq!(sorted[1].extractor, "none");
    assert_eq!(sorted[2].extractor, "second");
    assert!(sort_artifacts(Vec::new()).is_empty());
}

#[test]
fn job_transitions_of_creation_upload_cancel_and_codex() {
    let t = created_transition(false);
    assert_eq!((t.status.as_str(), t.stage.as_str(), t.progress), ("queued", "等待解析", 5));
    assert_eq!((t.event_type.as_str(), t.message.as_str()), ("queued", "材料已保存，等待后台整理"));
    let t = created_transition(true);
    assert_eq!((t.status.as_str(), t.stage.as_str(), t.progress, t.event_type.as_str()), ("uploading", "准备上传附件", 1, "upload_started"));
    let t = uploads_complete_transition();
    assert_eq!((t.status.as_str(), t.progress, t.event_type.as_str()), ("queued", 8, "upload_completed"));
    let t = cancel_transition();
    assert_eq!((t.status.as_str(), t.stage.as_str(), t.progress), ("cancelled", "已取消", 100));
    assert!(check_cancellable(&t.status).is_err());
    assert!(check_cancellable(&created_transition(true).status).is_ok());
    let t = agent_fallback_transition("超时".to_owned());
    assert_eq!((t.status.as_str(), t.stage.as_str(), t.event_type.as_str(), t.message.as_str()), ("completed", "Codex 未完成，使用本地草稿", "agent_fallback", "超时"));
    let t = agent_completed_transition();
    assert_eq!((t.status.as_str(), t.stage.as_str(), t.event_type.as_str()), ("completed", "等待确认", "agent_completed"));
    assert_eq!((CODEX_ENGINE, FALLBACK_ENGINE), ("codex_exec", "deterministic_fallback"));
}
