use icthub_server::error::AppError;
use icthub_server::tags::{
    apply_tag_update, check_merge, prepare_suggestion, prepare_tag_create, required,
    suggestion_response, TagCreateInput, TagDefinition, TagMergeInput, TagSuggestionInput,
    TagUpdateInput,
};

fn tag() -> TagDefinition {
    TagDefinition {
        id: "t1".to_owned(),
        name: "Web".to_owned(),
        group_name: "技术".to_owned(),
        color: Some("#fff".to_owned()),
        sort_order: 3,
        is_active: true,
        merged_into_id: None,
    }
}

fn no_change() -> TagUpdateInput {
    TagUpdateInput { name: None, group_name: None, color: None, sort_order: None, is_active: None }
}

#[test]
fn required_texts() {
    assert_eq!(required("  Web  ", "m").unwrap(), "Web");
    assert!(matches!(required("   ", "空"), Err(AppError::BadRequest(m)) if m == "空"));
    assert!(required(&"字".repeat(41), "长").is_err());
    assert!(required(&"字".repeat(40), "长").is_ok());
}

#[test]
fn creating_tags() {
    let (name, group, color) = prepare_tag_create(&TagCreateInput {
        name: " NLP ".to_owned(),
        group_name: " 技术 ".to_owned(),
        color: Some("  ".to_owned()),
        sort_order: 0,
    })
    .unwrap();
    assert_eq!((name.as_str(), group.as_str(), color), ("NLP", "技术", None));
    let missing_group = prepare_tag_create(&TagCreateInput {
        name: "NLP".to_owned(),
        group_name: " ".to_owned(),
        color: None,
        sort_order: 0,
    });
    assert!(matches!(missing_group, Err(AppError::BadRequest(m)) if m == "标签分组不能为空"));
}

#[test]
fn an_empty_change_keeps_the_tag() {
    let out = apply_tag_update(tag(), no_change()).unwrap();
    assert_eq!(out.name, "Web");
    assert_eq!(out.color.as_deref(), Some("#fff"));
    assert_eq!(out.sort_order, 3);
}

#[test]
fn the_same_change_twice_changes_nothing_more() {
    let change = TagUpdateInput {
        name: Some("  LLM/Agent ".to_owned()),
        group_name: None,
        color: Some(" red ".to_owned()),
        sort_order: Some(9),
        is_active: Some(false),
    };
    let once = apply_tag_update(tag(), change.clone()).unwrap();
    let twice = apply_tag_update(once.clone(), change).unwrap();
    assert_eq!(once.name, "LLM/Agent");
    assert_eq!(once.color.as_deref(), Some(" red "));
    assert_eq!((twice.name, twice.color, twice.sort_order, twice.is_active), (once.name, once.color, once.sort_order, once.is_active));
    let bad = TagUpdateInput { name: Some(" ".to_owned()), ..no_change() };
    assert!(matches!(apply_tag_update(tag(), bad), Err(AppError::BadRequest(m)) if m == "标签名称不能为空"));
}

#[test]
fn merges_and_suggestions() {
    assert!(matches!(check_merge("t1", &TagMergeInput { target_id: "t1".to_owned() }), Err(AppError::BadRequest(m)) if m == "不能合并到自身"));
    assert!(check_merge("t1", &TagMergeInput { target_id: "t2".to_owned() }).is_ok());
    let (name, group, reason) = prepare_suggestion(&TagSuggestionInput {
        name: " 医疗 ".to_owned(),
        group_name: None,
        reason: Some(" 新方向 ".to_owned()),
    })
    .unwrap();
    assert_eq!((name.as_str(), group, reason.as_deref()), ("医疗", None, Some("新方向")));
    let response = suggestion_response("s1".to_owned());
    assert_eq!((response.id.as_str(), response.status.as_str()), ("s1", "pending"));
}
