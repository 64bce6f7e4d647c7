use cockpit_core::collection::{
    CodexLocalAccessCollection, CodexLocalAccessImageGenerationMode, CodexLocalAccessScope,
};
use cockpit_core::diagnostics::{
    build_cli_environment_failure, build_failure_result, classify_gateway_probe_failure,
    clean_diagnostic_text, extract_gateway_error_message, format_cli_failure_output,
    gateway_probe_outcome, local_access_test_precheck, truncate_diagnostic_text,
    CliConversationFailure, LocalAccessGatewayProbeFailure, LocalAccessGatewayProbeResult,
};
use cockpit_core::routing::CodexLocalAccessRoutingStrategy;

fn cli_error() -> CliConversationFailure {
    CliConversationFailure {
        message: "codex exited with status 1".to_string(),
        status: Some("exit status: 1".to_string()),
        duration_ms: Some(1520),
        stderr: Some("error: stream disconnected".to_string()),
        stdout: None,
        last_message: None,
    }
}

fn probe(status: Option<u16>, message: &str) -> LocalAccessGatewayProbeFailure {
    LocalAccessGatewayProbeFailure {
        status,
        message: message.to_string(),
        detail: Some("detail".to_string()),
        gateway_output: Some("HTTP 401\n{}".to_string()),
    }
}

fn service(enabled: bool, accounts: &[&str]) -> CodexLocalAccessCollection {
    CodexLocalAccessCollection {
        enabled,
        port: 1455,
        api_key: "key".to_string(),
        api_keys: Vec::new(),
        access_scope: CodexLocalAccessScope::Localhost,
        image_generation_mode: CodexLocalAccessImageGenerationMode::Enabled,
        upstream_proxy_url: None,
        routing_strategy: CodexLocalAccessRoutingStrategy::Auto,
        custom_routing_rules: Vec::new(),
        model_aliases: Vec::new(),
        excluded_models: Vec::new(),
        session_affinity: false,
        session_affinity_ttl_ms: 3_600_000,
        max_retry_credentials: 0,
        max_retry_interval_ms: 3_000,
        disable_cooling: false,
        restrict_free_accounts: true,
        bound_oauth_account_id: None,
        account_ids: accounts.iter().map(|s| s.to_string()).collect(),
        created_at: 1,
        updated_at: 2,
    }
}

#[test]
fn diagnostic_text_is_cut_with_an_ellipsis() {
    assert_eq!(truncate_diagnostic_text("abcdef", 6), "abcdef");
    assert_eq!(truncate_diagnostic_text("abcdef", 4), "abcd...");
    assert_eq!(truncate_diagnostic_text("网关错误内容", 2), "网关...");
    assert_eq!(clean_diagnostic_text("  \n "), None);
    assert_eq!(clean_diagnostic_text("  body \n").as_deref(), Some("body"));
    let long = "x".repeat(4005);
    assert_eq!(clean_diagnostic_text(&long).unwrap().chars().count(), 4003);
}

#[test]
fn gateway_error_message_prefers_json_fields() {
    assert_eq!(extract_gateway_error_message("   "), "网关未返回错误内容");
    assert_eq!(extract_gateway_error_message(r#"{"error":"bad key"}"#), "bad key");
    assert_eq!(
        extract_gateway_error_message(r#" {"error":{"message":"no account","code":"x"}} "#),
        "no account"
    );
    assert_eq!(extract_gateway_error_message(r#"{"message":"top level"}"#), "top level");
    assert_eq!(extract_gateway_error_message(r#"{"detail":"other"}"#), r#"{"detail":"other"}"#);
    let long = format!("plain {}", "y".repeat(900));
    assert_eq!(extract_gateway_error_message(&long).chars().count(), 803);
}

#[test]
fn cli_failure_report_lists_present_sections() {
    assert_eq!(
        format_cli_failure_output(&cli_error()).as_deref(),
        Some("exit_status: exit status: 1\n\nduration_ms: 1520\n\nstderr:\nerror: stream disconnected")
    );
    let empty = CliConversationFailure {
        message: "m".to_string(),
        status: None,
        duration_ms: None,
        stderr: None,
        stdout: None,
        last_message: None,
    };
    assert_eq!(format_cli_failure_output(&empty), None);
}

#[test]
fn probe_outcome_reads_status_and_body() {
    assert!(matches!(gateway_probe_outcome(200, "{}"), LocalAccessGatewayProbeResult::Passed));
    match gateway_probe_outcome(502, r#"{"error":{"message":"API 服务集合暂无可用账号"}}"#) {
        LocalAccessGatewayProbeResult::Failed(f) => {
            assert_eq!(f.status, Some(502));
            assert_eq!(f.message, "API 服务集合暂无可用账号");
            assert_eq!(f.detail.as_deref(), Some(r#"{"error":{"message":"API 服务集合暂无可用账号"}}"#));
            assert_eq!(
                f.gateway_output.as_deref(),
                Some("HTTP 502\n{\"error\":{\"message\":\"API 服务集合暂无可用账号\"}}")
            );
        }
        LocalAccessGatewayProbeResult::Passed => panic!("a 502 is no pass"),
    }
}

#[test]
fn probe_failures_are_classified_by_status_and_message() {
    let unreachable = classify_gateway_probe_failure("gpt-5", &cli_error(), probe(None, " connection refused "));
    assert_eq!(unreachable.title, "无法连接本地网关");
    assert_eq!(unreachable.cause, "connection refused");
    assert_eq!(unreachable.model_id.as_deref(), Some("gpt-5"));
    assert_eq!(unreachable.detail.as_deref(), Some("detail"));
    assert!(unreachable.cli_output.unwrap().starts_with("exit_status: exit status: 1"));

    let key = classify_gateway_probe_failure("gpt-5", &cli_error(), probe(Some(401), "Invalid Authorization header"));
    assert_eq!(key.title, "本地 API 服务密钥无效");
    assert_eq!(key.cause, "本地网关返回 HTTP 401：Invalid Authorization header");
    assert_eq!(key.status, Some(401));

    let account = classify_gateway_probe_failure("gpt-5", &cli_error(), probe(Some(401), "token expired"));
    assert_eq!(account.title, "Codex 账号鉴权失败");

    let image = classify_gateway_probe_failure("gpt-5", &cli_error(), probe(Some(403), "image_generation_not_enabled"));
    assert_eq!(image.title, "图片生成能力不可用");

    let quota = classify_gateway_probe_failure("gpt-5", &cli_error(), probe(Some(429), "slow down"));
    assert_eq!(quota.title, "上游限流或额度不足");

    let pool = classify_gateway_probe_failure("gpt-5", &cli_error(), probe(Some(503), "API 服务集合暂无可用账号"));
    assert_eq!(pool.title, "账号池暂无可用账号");

    let upstream = classify_gateway_probe_failure("gpt-5", &cli_error(), probe(Some(502), "bad gateway"));
    assert_eq!(upstream.title, "上游服务或代理不可用");
    assert_eq!(upstream.stage, "上游请求");

    let other = classify_gateway_probe_failure("gpt-5", &cli_error(), probe(Some(400), "bad request"));
    assert_eq!(other.title, "本地网关请求失败");
}

#[test]
fn cli_environment_failure_mentions_a_passing_gateway() {
    let passed = build_cli_environment_failure("gpt-5", cli_error(), true);
    assert_eq!(passed.cause, "本地网关直接诊断已通过，但 Codex CLI 真实请求失败：codex exited with status 1");
    assert_eq!(passed.stage, "Codex CLI");
    let failed = build_cli_environment_failure("gpt-5", cli_error(), false);
    assert_eq!(failed.cause, "codex exited with status 1");
    let result = build_failure_result(failed);
    assert_eq!(result.model_id.as_deref(), Some("gpt-5"));
    assert!(result.output.is_none() && result.latency_ms.is_none());
}

#[test]
fn health_check_preconditions_are_checked_in_order() {
    let models = vec!["gpt-5".to_string()];
    let none = local_access_test_precheck(None, true, &models).unwrap_err();
    assert_eq!(none.title, "API 服务集合尚未创建");
    let disabled = service(false, &["a"]);
    assert_eq!(local_access_test_precheck(Some(&disabled), false, &models).unwrap_err().title, "API 服务未启用");
    let enabled = service(true, &["a"]);
    assert_eq!(local_access_test_precheck(Some(&enabled), false, &models).unwrap_err().title, "API 服务未运行");
    let empty = service(true, &[]);
    assert_eq!(local_access_test_precheck(Some(&empty), true, &models).unwrap_err().title, "账号集合为空");
    let blank = vec!["  ".to_string()];
    assert_eq!(local_access_test_precheck(Some(&enabled), true, &blank).unwrap_err().title, "API 服务暂无可用模型");
    assert_eq!(local_access_test_precheck(Some(&enabled), true, &Vec::new()).unwrap_err().stage, "模型配置");
    assert_eq!(local_access_test_precheck(Some(&enabled), true, &models).unwrap(), "gpt-5");
}
