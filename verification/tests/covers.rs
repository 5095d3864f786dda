use icthub_server::covers::{
    attach_cover_resource, fallback_title, generated_cover, is_image_url, keeps_manual_cover,
    manual_cover, prepare_cover_patch, resource_priority, select_resource, tone_for_category,
    truncate, CoverPatch, CoverProjectRow, CoverResourceRow,
};
use icthub_server::error::AppError;

#[test]
fn text_fallback_has_agent_title_length() {
    let title = fallback_title("实验室服务门户", "传统软件");
    assert!((4..=8).contains(&title.chars().count()));
}

#[test]
fn image_candidate_precedes_other_resources() {
    let resources = vec![
        CoverResourceRow {
            id: "video".into(),
            resource_type: "video".into(),
            url: Some("https://example.com/demo.mp4".into()),
        },
        CoverResourceRow {
            id: "image".into(),
            resource_type: "image".into(),
            url: Some("https://example.com/cover.png".into()),
        },
    ];
    assert_eq!(
        select_resource(&resources).map(|item| item.id.as_str()),
        Some("image")
    );
    assert!(resource_priority(&resources[1]) < resource_priority(&resources[0]));
}

fn row(id: &str, kind: &str, url: Option<&str>) -> CoverResourceRow {
    CoverResourceRow {
        id: id.to_owned(),
        resource_type: kind.to_owned(),
        url: url.map(str::to_owned),
    }
}

#[test]
fn cover_priorities_follow_resource_kinds() {
    assert_eq!(resource_priority(&row("a", "link", Some("https://x.test/a.PNG?size=2"))), 1);
    assert_eq!(resource_priority(&row("a", "video", None)), 2);
    assert_eq!(resource_priority(&row("a", "link", Some("https://x.test/deck.PPTX"))), 3);
    assert_eq!(resource_priority(&row("a", "github", None)), 4);
    assert_eq!(resource_priority(&row("a", "document", None)), 5);
    assert_eq!(resource_priority(&row("a", "baidu", None)), 20);
}

#[test]
fn image_urls_ignore_query_and_fragment() {
    assert!(is_image_url("https://x.test/p.jpeg?x=1"));
    assert!(is_image_url("https://x.test/p.webp#top"));
    assert!(!is_image_url("https://x.test/p.html?f=a.png"));
}

#[test]
fn first_of_equal_candidates_wins_and_no_candidate_gives_none() {
    let resources = vec![row("g1", "github", None), row("g2", "github", None)];
    assert_eq!(select_resource(&resources).map(|r| r.id.as_str()), Some("g1"));
    let none = vec![row("l", "link", Some("https://x.test"))];
    assert!(select_resource(&none).is_none());
}

#[test]
fn curated_and_cleaned_titles() {
    assert_eq!(fallback_title("棉花病虫害识别", "AI 软件"), "棉田智检");
    assert_eq!(fallback_title("基于深度学习的校园导航系统平台", "传统软件"), "深度学习的校园导");
    assert_eq!(fallback_title("ab", "智能硬件"), "智能硬件");
    assert_eq!(fallback_title("x", "其他"), "软件项目");
}

#[test]
fn tones_and_truncation() {
    assert_eq!(tone_for_category("AI 软件"), "violet");
    assert_eq!(tone_for_category("传统软件"), "slate");
    assert_eq!(truncate("  一二三四五  ", 3), "一二三");
}

fn patch(mode: &str, resource: Option<&str>, title: &str) -> CoverPatch {
    CoverPatch {
        cover_mode: mode.to_owned(),
        cover_resource_id: resource.map(str::to_owned),
        cover_title: title.to_owned(),
        cover_subtitle: " 副标题 ".to_owned(),
        cover_keywords: vec![" a ".to_owned(), "".to_owned(), "b".to_owned(), "c".to_owned(), "d".to_owned()],
        cover_tone: " amber ".to_owned(),
    }
}

#[test]
fn cover_patches_are_checked() {
    let ok = prepare_cover_patch(patch(" Manual ", None, " 标题 ")).expect("valid patch");
    assert_eq!(ok.cover_mode, "manual");
    assert_eq!(ok.cover_title, "标题");
    assert_eq!(ok.cover_subtitle, "副标题");
    assert_eq!(ok.cover_keywords, vec!["a", "b", "c"]);
    assert_eq!(ok.cover_tone, "amber");
    assert_eq!(ok.confidence_percent, 100);
    assert!(matches!(prepare_cover_patch(patch("photo", None, "t")), Err(AppError::BadRequest(m)) if m == "封面模式不受支持"));
    assert!(matches!(prepare_cover_patch(patch("text", None, "   ")), Err(AppError::BadRequest(m)) if m == "请检查封面标题与副标题长度"));
    assert!(matches!(prepare_cover_patch(patch("resource", None, "t")), Err(AppError::BadRequest(m)) if m == "资源封面必须指定项目资源"));
    let with_resource = prepare_cover_patch(patch("resource", Some("r1"), "t")).expect("patch");
    assert!(matches!(attach_cover_resource(with_resource.clone(), None), Err(AppError::BadRequest(m)) if m == "封面资源不属于该项目"));
    let attached = attach_cover_resource(with_resource, Some(Some("https://x.test/c.png".to_owned()))).expect("attached");
    assert_eq!(attached.cover_resource_url.as_deref(), Some("https://x.test/c.png"));
}

fn project(mode: &str) -> CoverProjectRow {
    CoverProjectRow {
        id: "p1".to_owned(),
        name: "会议纪要助手".to_owned(),
        summary: "  一个帮助实验室整理会议纪要并自动生成待办事项的小工具  ".to_owned(),
        primary_category: "AI 软件".to_owned(),
        cover_mode: mode.to_owned(),
        cover_resource_id: None,
        cover_title: None,
        cover_subtitle: None,
        cover_keywords: "[\"纪要\"]".to_owned(),
        cover_tone: "violet".to_owned(),
        cover_confidence_percent: None,
    }
}

#[test]
fn generated_and_manual_covers() {
    let p = project("text");
    assert!(!keeps_manual_cover(true, &p));
    assert!(keeps_manual_cover(true, &project("manual")));
    let text = generated_cover(&p, &[], vec![]);
    assert_eq!(text.cover_mode, "text");
    assert_eq!(text.confidence_percent, 74);
    assert_eq!(text.cover_title, "智能纪要");
    assert_eq!(text.cover_keywords, vec!["AI 软件"]);
    assert_eq!(text.cover_tone, "violet");
    assert_eq!(text.cover_subtitle.chars().count(), 20);
    let with_image = generated_cover(&p, &[row("img", "image", Some("https://x.test/a.png"))], vec!["Web".to_owned()]);
    assert_eq!(with_image.cover_mode, "resource");
    assert_eq!(with_image.cover_resource_id.as_deref(), Some("img"));
    assert_eq!(with_image.confidence_percent, 92);
    assert_eq!(with_image.cover_keywords, vec!["Web"]);
    let manual = manual_cover(project("manual"), None);
    assert_eq!(manual.cover_title, "智能纪要");
    assert_eq!(manual.cover_keywords, vec!["纪要"]);
    assert_eq!(manual.confidence_percent, 100);
}
