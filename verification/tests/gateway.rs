use cockpit_core::account::{CodexAccount, CodexApiProviderMode, CodexTokens};
use cockpit_core::http::{
    apply_codex_official_headers, extract_local_api_key, find_header_end, find_sse_frame_boundary,
    header_value, is_chat_completions_request, is_images_edits_request, is_images_generations_request,
    is_responses_compact_request, is_responses_request, normalize_proxy_target, parse_content_length,
    parse_http_request, proxy_target_path, request_kind_from_target, resolve_upstream_target,
    should_treat_response_as_stream, CodexLocalAccessRequestKind, Headers, ParsedRequest,
};
use cockpit_core::models::{
    has_date_snapshot_suffix, resolve_supported_model_alias, resolve_supported_model_alias_in,
    supported_codex_model_ids,
};
use cockpit_core::upstream::{
    account_has_refresh_token, account_upstream_base_url, account_upstream_token,
    build_upstream_url, build_upstream_websocket_url, is_free_plan_type,
    is_local_access_eligible_account,
};
use cockpit_core::usage::{is_stream_request, ResponseUsageCollector};

#[test]
fn parses_sse_usage_when_request_is_stream_even_if_content_type_is_json() {
    assert!(should_treat_response_as_stream(
        "application/json; charset=utf-8",
        true
    ));

    let mut collector = ResponseUsageCollector::new(true);
    collector.feed(
        br#"event: response.completed
data: {"type":"response.completed","response":{"id":"resp_123","usage":{"input_tokens":16,"input_tokens_details":{"cached_tokens":0},"output_tokens":5,"output_tokens_details":{"reasoning_tokens":0},"total_tokens":21}}}

"#,
    );

    let capture = collector.finish();
    let usage = capture.usage.expect("stream usage should be parsed");
    assert_eq!(usage.input_tokens, 16);
    assert_eq!(usage.output_tokens, 5);
    assert_eq!(usage.total_tokens, 21);
    assert_eq!(capture.response_id.as_deref(), Some("resp_123"));
}

#[test]
fn maps_snapshot_model_ids_to_supported_aliases() {
    assert_eq!(
        resolve_supported_model_alias("gpt-5.4-2026-03-05"),
        "gpt-5.4"
    );
    assert_eq!(
        resolve_supported_model_alias("GPT-5.4-Mini-2026-03-05"),
        "gpt-5.4-mini"
    );
    assert_eq!(
        resolve_supported_model_alias("custom-model-2026-03-05"),
        "custom-model-2026-03-05"
    );
}

#[test]
fn resolves_backend_codex_targets_to_upstream_paths() {
    assert_eq!(
        resolve_upstream_target("/backend-api/codex/responses").unwrap(),
        "/responses"
    );
    assert_eq!(
        resolve_upstream_target("/backend-api/codex/responses/compact").unwrap(),
        "/responses/compact"
    );
    assert_eq!(
        resolve_upstream_target("/v1/responses?debug=1").unwrap(),
        "/responses?debug=1"
    );
}

#[test]
fn applies_codex_official_empty_headers() {
    let mut request = ParsedRequest {
        method: "POST".to_string(),
        target: "/backend-api/codex/responses".to_string(),
        headers: Headers::new(),
        body: br#"{"model":"gpt-5.4","input":"hello"}"#.to_vec(),
    };

    apply_codex_official_headers(&mut request);

    for key in [
        "version",
        "x-codex-turn-state",
        "x-codex-turn-metadata",
        "x-client-request-id",
        "x-responsesapi-include-timing-metrics",
    ] {
        assert_eq!(request.headers.get(key).as_deref(), Some(""));
    }
}

#[test]
fn api_key_accounts_are_eligible_with_upstream_key() {
    let account = CodexAccount::new_api_key(
        "api-1".to_string(),
        "api-key@example.com".to_string(),
        "sk-test".to_string(),
        CodexApiProviderMode::Custom,
        Some("https://relay.example/v1".to_string()),
        Some("relay".to_string()),
        Some("Relay".to_string()),
    );

    assert!(is_local_access_eligible_account(&account, true));
    assert_eq!(
        account_upstream_base_url(&account),
        "https://relay.example/v1"
    );
}

fn oauth_account(plan: Option<&str>) -> CodexAccount {
    let mut account = CodexAccount::new(
        "oauth-1".to_string(),
        "user@example.com".to_string(),
        CodexTokens {
            id_token: String::new(),
            access_token: "  access-123  ".to_string(),
            refresh_token: Some("   ".to_string()),
        },
    );
    account.plan_type = plan.map(|p| p.to_string());
    account
}

#[test]
fn official_headers_are_left_alone_for_other_targets_and_kept_when_present() {
    let mut request = ParsedRequest {
        method: "POST".to_string(),
        target: "/v1/chat/completions".to_string(),
        headers: Headers::new(),
        body: Vec::new(),
    };
    apply_codex_official_headers(&mut request);
    assert_eq!(request.headers.get("version"), None);

    let mut headers = Headers::new();
    headers.insert("version", "0.99");
    let mut request = ParsedRequest {
        method: "POST".to_string(),
        target: "/v1/responses/compact?x=1".to_string(),
        headers,
        body: Vec::new(),
    };
    apply_codex_official_headers(&mut request);
    assert_eq!(request.headers.get("version").as_deref(), Some("0.99"));
    assert_eq!(request.headers.get("x-client-request-id").as_deref(), Some(""));
}

#[test]
fn upstream_targets_strip_every_repeated_prefix_and_refuse_others() {
    assert_eq!(resolve_upstream_target("/v1").unwrap(), "/");
    assert_eq!(resolve_upstream_target("/v1/v1/models").unwrap(), "/models");
    assert_eq!(resolve_upstream_target("/v1responses").unwrap(), "/responses");
    assert_eq!(
        resolve_upstream_target("/api/responses").unwrap_err(),
        "仅支持 /v1 或 /backend-api/codex 路径"
    );
}

#[test]
fn target_paths_classify_requests() {
    assert_eq!(proxy_target_path(" /v1/responses ?a=b"), "/v1/responses");
    assert!(is_responses_request("/v1/responses?stream=true"));
    assert!(is_responses_request("/custom/responses"));
    assert!(!is_responses_request("/v1/responses/compact"));
    assert!(is_responses_compact_request("/backend-api/codex/responses/compact"));
    assert!(is_chat_completions_request("/v1/chat/completions"));
    assert!(is_images_generations_request("/v1/images/generations"));
    assert!(is_images_edits_request("/proxy/images/edits?x=1"));
    assert_eq!(
        request_kind_from_target("/v1/images/generations"),
        CodexLocalAccessRequestKind::ImageGeneration
    );
    assert_eq!(
        request_kind_from_target("/v1/images/edits"),
        CodexLocalAccessRequestKind::ImageEdit
    );
    assert_eq!(
        request_kind_from_target("/v1/responses"),
        CodexLocalAccessRequestKind::Text
    );
}

#[test]
fn client_keys_come_from_bearer_or_x_api_key() {
    let mut headers = Headers::new();
    headers.insert("authorization", "  Bearer  sk-local-1 ");
    assert_eq!(extract_local_api_key(&headers).as_deref(), Some("sk-local-1"));

    let mut headers = Headers::new();
    headers.insert("authorization", "bearer sk-lower");
    assert_eq!(extract_local_api_key(&headers).as_deref(), Some("sk-lower"));

    let mut headers = Headers::new();
    headers.insert("authorization", "Basic abc");
    headers.insert("x-api-key", "  sk-header ");
    assert_eq!(extract_local_api_key(&headers).as_deref(), Some("sk-header"));

    let mut headers = Headers::new();
    headers.insert("authorization", "Bearer   ");
    assert_eq!(extract_local_api_key(&headers), None);
    assert_eq!(header_value(&headers, "Authorization").as_deref(), Some("Bearer"));
}

#[test]
fn parses_raw_requests_with_lowercase_headers() {
    let raw = b"POST /v1/responses HTTP/1.1\r\nHost: localhost\r\nContent-Type: application/json\r\ncontent-type: text/plain\r\nX-Custom:  a:b \r\n\r\n{\"a\":1}";
    let request = parse_http_request(raw).unwrap();
    assert_eq!(request.method, "POST");
    assert_eq!(request.target, "/v1/responses");
    assert_eq!(request.headers.get("host").as_deref(), Some("localhost"));
    assert_eq!(request.headers.get("content-type").as_deref(), Some("text/plain"));
    assert_eq!(request.headers.get("x-custom").as_deref(), Some("a:b"));
    assert_eq!(request.body, b"{\"a\":1}".to_vec());

    assert_eq!(
        parse_http_request(b"GET / HTTP/1.1\r\n").err().as_deref(),
        Some("缺少 HTTP 头结束标记")
    );
    assert_eq!(
        parse_http_request(b"GET\r\n\r\n").err().as_deref(),
        Some("请求行缺少 target")
    );
    assert_eq!(
        parse_http_request(b"   \r\n\r\n").err().as_deref(),
        Some("请求行缺少 method")
    );
}

#[test]
fn content_length_is_read_from_the_head() {
    assert_eq!(parse_content_length(b"POST / HTTP/1.1\r\nContent-Length: 42\r\n\r\n"), Ok(42));
    assert_eq!(parse_content_length(b"POST / HTTP/1.1\r\nHost: x\r\n\r\n"), Ok(0));
    assert_eq!(parse_content_length(b"POST / HTTP/1.1\r\ncontent-length: +7\r\n\r\n"), Ok(7));
    assert_eq!(
        parse_content_length(b"POST / HTTP/1.1\r\nContent-Length: abc\r\n\r\n"),
        Err("非法 Content-Length: invalid digit found in string".to_string())
    );
    assert_eq!(
        parse_content_length(b"POST / HTTP/1.1\r\nContent-Length:\r\n\r\n"),
        Err("非法 Content-Length: cannot parse integer from empty string".to_string())
    );
}

#[test]
fn frames_end_at_blank_lines() {
    assert_eq!(find_sse_frame_boundary(b"a"), None);
    assert_eq!(find_sse_frame_boundary(b"data: 1\n\ndata: 2"), Some((7, 2)));
    assert_eq!(find_sse_frame_boundary(b"data: 1\r\n\r\n"), Some((7, 4)));
    assert_eq!(find_header_end(b"GET / HTTP/1.1\r\n\r\nbody"), Some(18));
    assert_eq!(find_header_end(b"GET / HTTP/1.1\r\n"), None);
}

#[test]
fn proxy_targets_keep_path_and_query() {
    assert_eq!(
        normalize_proxy_target("http://example.com/v1/responses?x=1").unwrap(),
        "/v1/responses?x=1"
    );
    assert_eq!(normalize_proxy_target("/v1/models").unwrap(), "/v1/models");
}

#[test]
fn whole_responses_and_streams_report_usage() {
    let mut collector = ResponseUsageCollector::new(false);
    collector.feed(br#"{"id":" resp_9 ","usage":{"prompt_tokens":3,"completion_tokens":4,"completion_tokens_details":{"reasoning_tokens":2}}}"#);
    let capture = collector.finish();
    let usage = capture.usage.unwrap();
    assert_eq!(usage.input_tokens, 3);
    assert_eq!(usage.output_tokens, 4);
    assert_eq!(usage.reasoning_tokens, 2);
    assert_eq!(usage.total_tokens, 9);
    assert_eq!(capture.response_id.as_deref(), Some("resp_9"));

    let mut collector = ResponseUsageCollector::new(true);
    collector.feed(b"data: {\"id\":\"first\",\"usage\":{\"input_tokens\":1}}\n\ndata: [DONE]\n\ndata: {\"id\":\"second\",\"usage\":{\"input_tokens\":7,\"total_tokens\":70}}");
    let capture = collector.finish();
    assert_eq!(capture.response_id.as_deref(), Some("first"));
    assert_eq!(capture.usage.unwrap().total_tokens, 70);

    let headers = Headers::new();
    assert!(is_stream_request(&headers, br#"{"stream":true}"#));
    assert!(!is_stream_request(&headers, br#"{"stream":"yes"}"#));
    let mut headers = Headers::new();
    headers.insert("accept", "Text/Event-Stream");
    assert!(is_stream_request(&headers, b""));
}

#[test]
fn model_catalog_and_snapshot_suffixes() {
    assert!(has_date_snapshot_suffix("-2026-03-05"));
    assert!(!has_date_snapshot_suffix("-2026-3-05"));
    let catalog = supported_codex_model_ids(&Vec::new());
    assert_eq!(catalog.len(), 11);
    assert_eq!(catalog.last().map(String::as_str), Some("gpt-image-2"));
    let presets = vec![
        " my-model ".to_string(),
        "MY-MODEL".to_string(),
        "".to_string(),
        "GPT-Image-2".to_string(),
    ];
    let catalog = supported_codex_model_ids(&presets);
    assert_eq!(catalog, vec!["my-model".to_string(), "GPT-Image-2".to_string()]);
    assert_eq!(resolve_supported_model_alias_in(" My-Model-2025-01-31 ", &catalog), "my-model");
    assert_eq!(resolve_supported_model_alias_in(" other ", &catalog), "other");
}

#[test]
fn upstream_tokens_and_plans() {
    let account = oauth_account(Some(" Free_Workspace "));
    assert_eq!(account_upstream_token(&account).unwrap(), "access-123");
    assert_eq!(
        account_upstream_base_url(&account),
        "https://chatgpt.com/backend-api/codex"
    );
    assert!(!is_local_access_eligible_account(&account, true));
    assert!(is_local_access_eligible_account(&account, false));
    assert!(!account_has_refresh_token(&account));
    assert!(is_free_plan_type(Some("FREE")));
    assert!(!is_free_plan_type(Some("  ")));
    assert!(!is_free_plan_type(None));

    let mut api = CodexAccount::new_api_key(
        "api-2".to_string(),
        "a@example.com".to_string(),
        "  ".to_string(),
        CodexApiProviderMode::OpenAi,
        Some("  ".to_string()),
        None,
        None,
    );
    assert_eq!(account_upstream_base_url(&api), "https://api.openai.com/v1");
    assert_eq!(
        account_upstream_token(&api).unwrap_err(),
        "API Key 账号缺少上游 API Key"
    );
    assert!(!is_local_access_eligible_account(&api, false));
    api.api_base_url = Some("https://relay.example/v1///".to_string());
    assert_eq!(account_upstream_base_url(&api), "https://relay.example/v1");
}

#[test]
fn builds_upstream_websocket_url_from_custom_base_url() {
    let https_account = CodexAccount::new_api_key(
        "api-1".to_string(),
        "api-key@example.com".to_string(),
        "sk-test".to_string(),
        CodexApiProviderMode::Custom,
        Some("https://relay.example/v1".to_string()),
        Some("relay".to_string()),
        Some("Relay".to_string()),
    );
    let http_account = CodexAccount::new_api_key(
        "api-2".to_string(),
        "local@example.com".to_string(),
        "sk-test".to_string(),
        CodexApiProviderMode::Custom,
        Some("http://127.0.0.1:8080/v1".to_string()),
        Some("local".to_string()),
        Some("Local".to_string()),
    );

    assert_eq!(
        build_upstream_websocket_url(&https_account, "/responses").unwrap(),
        "wss://relay.example/v1/responses"
    );
    assert_eq!(
        build_upstream_websocket_url(&http_account, "/responses").unwrap(),
        "ws://127.0.0.1:8080/v1/responses"
    );
}

#[test]
fn upstream_urls_join_base_and_target_and_refuse_bad_bases() {
    let relay = CodexAccount::new_api_key(
        "api-3".to_string(),
        "relay@example.com".to_string(),
        "sk-test".to_string(),
        CodexApiProviderMode::Custom,
        Some("https://relay.example/v1/".to_string()),
        None,
        None,
    );
    assert_eq!(build_upstream_url(&relay, "/responses").unwrap(), "https://relay.example/v1/responses");

    let broken = CodexAccount::new_api_key(
        "api-4".to_string(),
        "broken@example.com".to_string(),
        "sk-test".to_string(),
        CodexApiProviderMode::Custom,
        Some("not a url".to_string()),
        None,
        None,
    );
    assert!(build_upstream_url(&broken, "/responses").unwrap_err().starts_with("上游 Base URL 无效: "));
    assert!(build_upstream_websocket_url(&broken, "/responses").is_err());

    let ftp = CodexAccount::new_api_key(
        "api-5".to_string(),
        "ftp@example.com".to_string(),
        "sk-test".to_string(),
        CodexApiProviderMode::Custom,
        Some("ftp://files.example/v1".to_string()),
        None,
        None,
    );
    assert_eq!(
        build_upstream_websocket_url(&ftp, "/responses").unwrap_err(),
        "上游 WebSocket 不支持 ftp 协议"
    );
}
