use icthub_server::imports::agent::api_key_from_file;
use icthub_server::imports::agent::{
    agent_prompt, bounded_timeout, check_codex_config, resolve_codex_paths, AgentImportResult,
    AgentNormalizedResources, AgentResource, AgentResultError, AgentRunRequest, CodexConfigError,
    CodexExecConfig, CodexExecRunner, EvidencedValue, next_thread_id,
};

fn sample_result() -> AgentImportResult {
    AgentImportResult {
        project_name: "棉田智检".to_owned(),
        summary: "面向棉花病虫害的移动巡检平台。".to_owned(),
        primary_category: "AI 软件".to_owned(),
        suggested_tags: Vec::new(),
        owner: None,
        source: None,
        highest_award: None,
        resources: AgentNormalizedResources::empty(),
        warnings: Vec::new(),
    }
}

#[test]
fn result_rejects_unknown_primary_category() {
    let mut result = sample_result();
    result.primary_category = "互联网+".to_owned();
    assert!(result.validate().is_err());
}

#[test]
fn result_requires_evidence_for_cautious_fields() {
    let mut result = sample_result();
    result.owner = Some(EvidencedValue {
        value: "张三".to_owned(),
        evidence: String::new(),
    });
    assert!(result.validate().is_err());
}

#[test]
fn results_are_checked_in_order() {
    assert!(sample_result().validate().is_ok());
    let mut result = sample_result();
    result.project_name = "  ".to_owned();
    result.primary_category = "x".to_owned();
    assert_eq!(result.validate(), Err(AgentResultError::InvalidProjectName));
    let mut result = sample_result();
    result.resources.videos.push(AgentResource {
        display_name: "演示".to_owned(),
        source_ref: "demo.mp4".to_owned(),
        evidence: "文件名".to_owned(),
        confidence_in_range: false,
    });
    assert_eq!(result.validate(), Err(AgentResultError::InvalidResourceConfidence));
    let mut result = sample_result();
    result.suggested_tags = (0..13)
        .map(|i| EvidencedValue { value: format!("t{i}"), evidence: "e".to_owned() })
        .collect();
    assert_eq!(result.validate(), Err(AgentResultError::TooManyTags));
    assert_eq!(AgentResultError::TooManyTags.message(), "Codex returned too many suggested tags");
}

fn request(refinement: &str) -> AgentRunRequest {
    AgentRunRequest {
        run_id: "run-1".to_owned(),
        job_id: "job-1".to_owned(),
        analysis_dir: "analysis".to_owned(),
        analysis_bundle_path: "analysis-bundle.json".to_owned(),
        refinement_prompt: refinement.to_owned(),
    }
}

#[test]
fn prompts_and_timeouts() {
    assert_eq!(
        agent_prompt("SYSTEM", &request("  ")),
        "SYSTEM\n\n本次任务信息：\n- job_id: job-1\n- 分析包文件: analysis-bundle.json\n\n成员在材料整理完成后补充的提示：\n（无补充提示）"
    );
    assert!(agent_prompt("S", &request(" 更关注硬件 ")).ends_with("\n更关注硬件"));
    assert_eq!(bounded_timeout(5), 30);
    assert_eq!(bounded_timeout(600), 600);
    assert_eq!(bounded_timeout(9000), 3600);
}

fn config(binary: &str, key_file: Option<&str>) -> CodexExecConfig {
    CodexExecConfig {
        enabled: true,
        binary: binary.to_owned(),
        codex_home: "data/codex-home".to_owned(),
        base_url: Some("https://api.example.test/v1".to_owned()),
        model: Some("configured-model".to_owned()),
        api_key_file: key_file.map(str::to_owned),
        timeout_secs: 600,
    }
}

#[test]
fn command_is_isolated_and_does_not_embed_the_api_key() {
    let runner = CodexExecRunner::new(
        config("vendor/codex/codex", Some("/run/secrets/codex-api-key")),
        "/srv/icthub",
        false,
    )
    .expect("runner");
    let args = runner
        .command_args(&request(""), "analysis/schema.json", "analysis/result.json")
        .expect("args");
    assert!(args.windows(2).any(|pair| pair == ["--sandbox", "read-only"]));
    assert!(args.contains(&"--ignore-user-config".to_owned()));
    assert!(args.contains(&"--ignore-rules".to_owned()));
    assert!(args.contains(&"shell_environment_policy.ignore_default_excludes=false".to_owned()));
    assert!(!args.join(" ").contains("codex-api-key"));
    assert!(args.contains(&"openai_base_url=\"https://api.example.test/v1\"".to_owned()));
}

#[test]
fn paths_resolve_against_the_start_directory() {
    let resolved = resolve_codex_paths(config("tools/codex", None), "/srv/icthub");
    assert_eq!(resolved.binary, "/srv/icthub/tools/codex");
    assert_eq!(resolved.codex_home, "/srv/icthub/data/codex-home");
    let bare = resolve_codex_paths(config("codex", Some("key")), "/srv/icthub/");
    assert_eq!(bare.binary, "codex");
    assert_eq!(bare.api_key_file.as_deref(), Some("/srv/icthub/key"));
    let dotted = resolve_codex_paths(config("./codex", None), "/srv");
    assert_eq!(dotted.binary, "/srv/./codex");
}

#[test]
fn enabled_runners_need_endpoint_and_credentials() {
    assert_eq!(check_codex_config(&config("codex", None), false), Err(CodexConfigError::MissingCredentials));
    assert_eq!(check_codex_config(&config("codex", None), true), Ok(()));
    let mut no_model = config("codex", Some("k"));
    no_model.model = Some(String::new());
    assert_eq!(check_codex_config(&no_model, true), Err(CodexConfigError::MissingEndpoint));
    let mut ftp = config("codex", Some("k"));
    ftp.base_url = Some("ftp://example.test".to_owned());
    assert_eq!(check_codex_config(&ftp, true), Err(CodexConfigError::NotHttpUrl));
    let mut junk = config("codex", Some("k"));
    junk.base_url = Some("not a url".to_owned());
    assert_eq!(check_codex_config(&junk, true), Err(CodexConfigError::InvalidBaseUrl));
    let disabled = CodexExecRunner::disabled();
    assert!(!disabled.enabled());
    assert_eq!(disabled.runner_name(), "codex_exec");
    assert_eq!(disabled.base_url_origin(), None);
    let runner = CodexExecRunner::new(config("codex", Some("k")), "/", false).unwrap();
    assert_eq!(runner.base_url_origin().as_deref(), Some("https://api.example.test"));
}

#[test]
fn thread_id_comes_from_the_started_event() {
    let first = next_thread_id(None, "{\"type\":\"thread.started\",\"thread_id\":\"thread-123\"}");
    assert_eq!(first.as_deref(), Some("thread-123"));
    let second = next_thread_id(first.clone(), "{\"type\":\"turn.completed\"}");
    assert_eq!(second.as_deref(), Some("thread-123"));
    let camel = next_thread_id(None, "{\"type\":\"thread.started\",\"threadId\":\"t-9\"}");
    assert_eq!(camel.as_deref(), Some("t-9"));
    assert_eq!(next_thread_id(first.clone(), "not json"), first);
    assert_eq!(next_thread_id(first, "{\"type\":\"thread.started\",\"thread_id\":7}"), None);
}

#[test]
fn api_key_file_is_trimmed_and_must_not_be_empty() {
    assert_eq!(api_key_from_file("  sk-test\n"), Ok("sk-test".to_owned()));
    assert_eq!(api_key_from_file(" \n\t"), Err("Codex API key file is empty"));
}
