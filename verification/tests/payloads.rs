use cockpit_core::affinity::{
    align_codex_prompt_cache, build_request_routing_hint, extract_body_string_path,
    extract_prompt_cache_key_from_value, extract_session_affinity_key, resolve_prompt_cache_key,
    session_affinity_binding_key, stable_prompt_cache_key, stable_uuid_from_text,
};
use cockpit_core::collection::ResolvedLocalApiKey;
use cockpit_core::http::{Headers, ParsedRequest};
use cockpit_core::json::{
    clone_json, get_member, json_to_vec, parse_json_bytes, parse_json_text, parse_request_body_json,
    remove_member, set_member, text_of, JsonValue,
};
use cockpit_core::takeover::{
    build_api_port_url, build_base_url, is_codex_local_access_auth_text, normalize_profile_dir_key,
};
use cockpit_core::usage::{extract_usage_capture, is_responses_completion_event};
use cockpit_core::account::{CodexAccount, CodexTokens};
use cockpit_core::collection::CodexLocalAccessImageGenerationMode;
use cockpit_core::http::CodexLocalAccessRequestKind;
use cockpit_core::images::{
    build_images_edit_request_from_json, build_images_generation_request, normalize_image_model_base,
    normalize_image_response_format, validate_image_model,
};
use cockpit_core::responses::parse_responses_payload_from_upstream;
use cockpit_core::upstream_body::{
    build_account_scoped_upstream_body, ensure_image_generation_tool_in_object,
    remove_image_generation_tool_from_object, rewrite_request_model_alias,
    rewrite_request_model_alias_value, should_inject_image_generation_tool,
};
use cockpit_core::chat_request::build_responses_body_from_chat_completions;
use cockpit_core::image_payload::{
    build_images_api_payload, build_images_api_payload_at, mime_type_from_output_format,
    ImageStreamTransformer,
};
use cockpit_core::chat_stream::{build_chat_completion_stream_body, ChatCompletionStreamTransformer};
use cockpit_core::chat_payload::{build_chat_completion_payload, build_chat_completion_payload_at};
use cockpit_core::toolnames::{
    build_reverse_tool_name_map_from_request, build_short_tool_name_map, map_tool_name,
    restore_tool_name, shorten_tool_name_if_needed, truncate_to_byte_limit,
};

fn request(target: &str, body: &[u8]) -> ParsedRequest {
    ParsedRequest {
        method: "POST".to_string(),
        target: target.to_string(),
        headers: Headers::new(),
        body: body.to_vec(),
    }
}

fn client_key(id: &str) -> ResolvedLocalApiKey {
    ResolvedLocalApiKey {
        id: id.to_string(),
        label: "Client".to_string(),
        model_prefix: None,
        allowed_models: Vec::new(),
        excluded_models: Vec::new(),
    }
}

fn text_member(value: &JsonValue, key: &str) -> Option<String> {
    text_of(get_member(value, key))
}

#[test]
fn extracts_usage_from_codex_response_completed_payload() {
    let payload = parse_json_text(
        r#"{"type":"response.completed","response":{"usage":{"input_tokens":16,"input_tokens_details":{"cached_tokens":3},"output_tokens":5,"output_tokens_details":{"reasoning_tokens":2},"total_tokens":21}}}"#,
    )
    .expect("payload parses");

    let usage = extract_usage_capture(&payload).expect("usage should be parsed");
    assert_eq!(usage.input_tokens, 16);
    assert_eq!(usage.output_tokens, 5);
    assert_eq!(usage.cached_tokens, 3);
    assert_eq!(usage.reasoning_tokens, 2);
    assert_eq!(usage.total_tokens, 21);
}

#[test]
fn extracts_usage_from_codex_response_done_payload() {
    assert!(is_responses_completion_event("response.done"));

    let payload = parse_json_text(
        r#"{"type":"response.done","response":{"id":"resp_123","usage":{"input_tokens":32,"input_tokens_details":{"cached_tokens":9},"output_tokens":6,"output_tokens_details":{"reasoning_tokens":3},"total_tokens":41}}}"#,
    )
    .expect("payload parses");

    let usage = extract_usage_capture(&payload).expect("usage should be parsed");
    assert_eq!(usage.input_tokens, 32);
    assert_eq!(usage.output_tokens, 6);
    assert_eq!(usage.cached_tokens, 9);
    assert_eq!(usage.reasoning_tokens, 3);
    assert_eq!(usage.total_tokens, 41);
}

#[test]
fn extracts_usage_from_openai_prompt_and_completion_details() {
    let payload = parse_json_text(
        r#"{"usage":{"prompt_tokens":8,"prompt_tokens_details":{"cached_tokens":1},"completion_tokens":4,"completion_tokens_details":{"reasoning_tokens":2}}}"#,
    )
    .expect("payload parses");

    let usage = extract_usage_capture(&payload).expect("usage should be parsed");
    assert_eq!(usage.input_tokens, 8);
    assert_eq!(usage.output_tokens, 4);
    assert_eq!(usage.cached_tokens, 1);
    assert_eq!(usage.reasoning_tokens, 2);
    assert_eq!(usage.total_tokens, 14);
}

#[test]
fn completion_events_are_completed_and_done_only() {
    assert!(is_responses_completion_event("response.completed"));
    assert!(is_responses_completion_event("response.done"));
    assert!(!is_responses_completion_event("response.created"));
    assert!(!is_responses_completion_event(" response.done"));
}

#[test]
fn detects_only_matching_local_access_auth_key() {
    assert!(is_codex_local_access_auth_text(
        r#"{"auth_mode":"apikey","OPENAI_API_KEY":"local-key"}"#,
        "local-key"
    ));
    assert!(is_codex_local_access_auth_text(
        r#"{"auth_mode":"apikey","OPENAI_API_KEY":"agt_codex_generated"}"#,
        "local-key"
    ));
    assert!(!is_codex_local_access_auth_text(
        r#"{"auth_mode":"apikey","OPENAI_API_KEY":"other-key"}"#,
        "local-key"
    ));
    assert!(!is_codex_local_access_auth_text(
        r#"{"tokens":{"access_token":"official"}}"#,
        "local-key"
    ));
}

#[test]
fn auth_detection_needs_a_key_and_tolerates_case_and_spaces() {
    assert!(!is_codex_local_access_auth_text(
        r#"{"auth_mode":"apikey","OPENAI_API_KEY":"agt_codex_generated"}"#,
        "   "
    ));
    assert!(is_codex_local_access_auth_text(
        r#"{"auth_mode":" ApiKey ","OPENAI_API_KEY":" local-key "}"#,
        " local-key"
    ));
    assert!(!is_codex_local_access_auth_text("not json", "local-key"));
}

#[test]
fn local_urls_and_profile_keys() {
    assert_eq!(build_base_url(57391), "http://127.0.0.1:57391/v1");
    assert_eq!(
        build_api_port_url(8080),
        "http://127.0.0.1:8080/v1/chat/completions"
    );
    assert_eq!(normalize_profile_dir_key("  /home/u/.codex//  "), "/home/u/.codex");
    assert_eq!(normalize_profile_dir_key("C:\\Users\\u\\.codex\\"), "C:\\Users\\u\\.codex");
    assert_eq!(normalize_profile_dir_key("/"), "");
}

#[test]
fn builds_routing_hint_from_previous_response_id_and_model() {
    let request = request(
        "/v1/responses",
        br#"{"model":"GPT-5.4-mini","previous_response_id":"resp_prev"}"#,
    );

    let hint = build_request_routing_hint(&request);
    assert_eq!(hint.model_key, "gpt-5.4-mini");
    assert_eq!(hint.previous_response_id.as_deref(), Some("resp_prev"));
}

#[test]
fn routing_hint_of_non_json_body_is_empty() {
    let request = request("/v1/responses", b"not json");
    let hint = build_request_routing_hint(&request);
    assert_eq!(hint.model_key, "");
    assert!(hint.previous_response_id.is_none());
    assert!(hint.session_affinity_key.is_none());
}

#[test]
fn session_affinity_prefers_headers_then_body_paths() {
    let mut with_header = request("/v1/responses", br#"{"conversation_id":"conv-1"}"#);
    with_header.headers.insert("x-session-id", "  abc  ");
    assert_eq!(
        extract_session_affinity_key(&with_header).as_deref(),
        Some("x-session-id=abc")
    );

    let from_body = request(
        "/v1/responses",
        br#"{"metadata":{"user_id":" user-9 "},"conversation_id":"conv-1"}"#,
    );
    assert_eq!(
        extract_session_affinity_key(&from_body).as_deref(),
        Some("body=user-9")
    );

    let thread = request("/v1/responses", br#"{"thread_id":"t-7"}"#);
    assert_eq!(extract_session_affinity_key(&thread).as_deref(), Some("body=t-7"));
    assert_eq!(session_affinity_binding_key("  s1 "), "session:s1");

    let value = parse_json_text(r#"{"a":{"b":"  deep  "},"c":"  "}"#).unwrap();
    assert_eq!(extract_body_string_path(&value, &["a", "b"]).as_deref(), Some("deep"));
    assert!(extract_body_string_path(&value, &["c"]).is_none());
    assert!(extract_body_string_path(&value, &["a", "x"]).is_none());
}

#[test]
fn stable_uuid_is_version_five_shaped_and_deterministic() {
    let a = stable_uuid_from_text("agtools:codex:prompt-cache:client-key-1");
    let b = stable_uuid_from_text("agtools:codex:prompt-cache:client-key-1");
    let c = stable_uuid_from_text("agtools:codex:prompt-cache:client-key-2");
    assert_eq!(a, b);
    assert_ne!(a, c);
    assert_eq!(a.len(), 36);
    let parts: Vec<&str> = a.split('-').collect();
    assert_eq!(parts.iter().map(|p| p.len()).collect::<Vec<_>>(), vec![8, 4, 4, 4, 12]);
    assert!(parts[2].starts_with('5'));
    assert!(matches!(parts[3].chars().next(), Some('8' | '9' | 'a' | 'b')));
    assert_eq!(stable_prompt_cache_key(&client_key("client-key-1")), a);
    // SHA-1 of "abc" is a9993e364706816aba3e25717850c26c9cd0d89d.
    assert_eq!(stable_uuid_from_text("abc"), "a9993e36-4706-516a-ba3e-25717850c26c");
}

#[test]
fn prompt_cache_key_prefers_body_then_session_header_then_fallback() {
    let key = client_key("client-key-1");
    let body = parse_json_text(r#"{"prompt_cache_key":" cache-9 "}"#).unwrap();
    assert_eq!(extract_prompt_cache_key_from_value(&body).as_deref(), Some("cache-9"));

    let mut headers = Headers::new();
    headers.insert("session_id", " sess-1 ");
    assert_eq!(resolve_prompt_cache_key(&headers, Some(&body), &key), "cache-9");
    let empty = parse_json_text("{}").unwrap();
    assert_eq!(resolve_prompt_cache_key(&headers, Some(&empty), &key), "sess-1");
    assert_eq!(
        resolve_prompt_cache_key(&Headers::new(), None, &key),
        stable_prompt_cache_key(&key)
    );
}

#[test]
fn aligns_prompt_cache_key_with_session_id() {
    let api_key = client_key("client-key-1");
    let mut request = request(
        "/backend-api/codex/responses",
        br#"{"model":"gpt-5.4","input":"hello","prompt_cache_key":"cache-123"}"#,
    );

    align_codex_prompt_cache(&mut request, &api_key).unwrap();
    let body = parse_json_bytes(&request.body).unwrap();
    assert_eq!(
        request.headers.get("session_id").as_deref(),
        Some("cache-123")
    );
    assert_eq!(
        request.headers.get("conversation_id").as_deref(),
        Some("cache-123")
    );
    assert_eq!(text_member(&body, "prompt_cache_key").as_deref(), Some("cache-123"));
}

#[test]
fn prompt_cache_alignment_skips_other_targets_and_keeps_non_object_bodies() {
    let api_key = client_key("client-key-1");
    let mut chat = request("/v1/chat/completions", br#"{"model":"gpt-5.4"}"#);
    assert_eq!(align_codex_prompt_cache(&mut chat, &api_key), Ok(None));
    assert!(chat.headers.get("session_id").is_none());

    let mut raw = request("/v1/responses", b"[1,2]");
    let key = align_codex_prompt_cache(&mut raw, &api_key).unwrap().unwrap();
    assert_eq!(key, stable_prompt_cache_key(&api_key));
    assert_eq!(raw.body, b"[1,2]".to_vec());
    assert_eq!(raw.headers.get("conversation_id"), Some(key));
}

#[test]
fn object_members_are_set_removed_and_serialised() {
    let mut value = parse_request_body_json(br#"{"a":1,"b":"x"}"#).unwrap();
    if let JsonValue::Object(entries) = &mut value {
        set_member(entries, "b", JsonValue::String("y".to_string()));
        set_member(entries, "c", JsonValue::Bool(true));
        remove_member(entries, "a");
    }
    let copy = clone_json(&value);
    let bytes = json_to_vec(&copy).unwrap();
    assert_eq!(String::from_utf8(bytes).unwrap(), r#"{"b":"y","c":true}"#);
    assert!(parse_request_body_json(b"").is_none());
}

fn member<'a>(value: Option<&'a JsonValue>, key: &str) -> Option<&'a JsonValue> {
    value.and_then(|v| get_member(v, key))
}

fn first_item(value: Option<&JsonValue>) -> Option<&JsonValue> {
    match value {
        Some(JsonValue::Array(items)) => items.first(),
        _ => None,
    }
}

fn u64_member(value: Option<&JsonValue>) -> Option<u64> {
    cockpit_core::json::u64_of(value)
}

#[test]
fn parses_responses_sse_payload_to_json() {
    let sse = br#"event: response.output_text.delta
data: {"type":"response.output_text.delta","delta":"hello "}

event: response.output_text.delta
data: {"type":"response.output_text.delta","delta":"world"}

event: response.completed
data: {"type":"response.completed","response":{"id":"resp_1","model":"gpt-5.4","status":"completed","usage":{"input_tokens":2,"output_tokens":2,"total_tokens":4}}}

data: [DONE]

"#;

    let parsed = parse_responses_payload_from_upstream(sse).expect("sse should be parsed");
    let response = member(Some(&parsed), "response");
    assert_eq!(text_of(member(response, "id")).as_deref(), Some("resp_1"));
    assert_eq!(text_of(member(response, "output_text")).as_deref(), Some("hello world"));
}

#[test]
fn parses_response_done_sse_payload_to_json() {
    let sse = br#"event: response.output_text.delta
data: {"type":"response.output_text.delta","delta":"done body"}

event: response.done
data: {"response":{"id":"resp_done","model":"gpt-5.4","status":"completed","usage":{"input_tokens":3,"input_tokens_details":{"cached_tokens":2},"output_tokens":1,"total_tokens":4}}}

"#;

    let parsed = parse_responses_payload_from_upstream(sse).expect("sse should be parsed");
    let response = member(Some(&parsed), "response");
    assert_eq!(text_of(member(response, "id")).as_deref(), Some("resp_done"));
    assert_eq!(
        u64_member(member(member(member(response, "usage"), "input_tokens_details"), "cached_tokens")),
        Some(2)
    );
}

#[test]
fn upstream_payload_keeps_json_and_gathers_items() {
    let whole = parse_responses_payload_from_upstream(br#"{"id":"r"}"#).unwrap();
    assert_eq!(text_of(member(Some(&whole), "id")).as_deref(), Some("r"));

    let sse = b"data: {\"type\":\"response.output_item.done\",\"item\":{\"type\":\"message\"}}\n\ndata: {\"type\":\"response.output_text.done\",\"text\":\"final\"}\n\ndata: {\"type\":\"response.completed\",\"response\":{\"id\":\"r2\",\"output\":[]}}";
    let parsed = parse_responses_payload_from_upstream(sse).unwrap();
    let response = member(Some(&parsed), "response");
    assert_eq!(text_of(member(response, "output_text")).as_deref(), Some("final"));
    assert_eq!(
        text_of(member(first_item(member(response, "output")), "type")).as_deref(),
        Some("message")
    );

    let err = parse_responses_payload_from_upstream(b"data: {\"type\":\"response.output_text.delta\",\"delta\":\"x\"}\n\n")
        .unwrap_err();
    assert!(err.contains("response.completed/response.done"));
}

#[test]
fn builds_chat_completion_payload_from_responses_output() {
    let responses_payload = parse_json_text(
        r#"{"id":"resp_123","model":"gpt-5.4","output":[{"type":"message","role":"assistant","content":[{"type":"output_text","text":"hello world"}]}],"usage":{"input_tokens":7,"output_tokens":3,"total_tokens":10}}"#,
    )
    .unwrap();

    let chat_payload = build_chat_completion_payload(&responses_payload, "gpt-5.4", br#"{}"#);
    assert_eq!(
        text_of(member(Some(&chat_payload), "object")).as_deref(),
        Some("chat.completion")
    );
    let choice = first_item(member(Some(&chat_payload), "choices"));
    assert_eq!(
        text_of(member(member(choice, "message"), "content")).as_deref(),
        Some("hello world")
    );
    assert_eq!(
        u64_member(member(member(Some(&chat_payload), "usage"), "total_tokens")),
        Some(10)
    );
}

#[test]
fn builds_chat_completion_payload_from_function_call_output() {
    let responses_payload = parse_json_text(
        r#"{"id":"resp_tool_1","model":"gpt-5.4","status":"completed","output":[{"type":"function_call","call_id":"call_abc","name":"get_weather","arguments":"{\"location\":\"Paris\"}"}]}"#,
    )
    .unwrap();

    let chat_payload = build_chat_completion_payload(&responses_payload, "gpt-5.4", br#"{}"#);
    let choice = first_item(member(Some(&chat_payload), "choices"));
    assert_eq!(
        text_of(member(choice, "finish_reason")).as_deref(),
        Some("tool_calls")
    );
    let call = first_item(member(member(choice, "message"), "tool_calls"));
    assert_eq!(
        text_of(member(member(call, "function"), "name")).as_deref(),
        Some("get_weather")
    );
}

#[test]
fn restores_shortened_tool_name_in_chat_payload() {
    let original_request = br#"{
            "model":"gpt-5.4",
            "messages":[{"role":"user","content":"run tool"}],
            "tools":[{
                "type":"function",
                "function":{
                    "name":"mcp__very_long_namespace_segment__very_long_server_name__super_long_tool_name_that_needs_shortening",
                    "description":"Long name",
                    "parameters":{"type":"object","properties":{}}
                }
            }]
        }"#;
    let responses_payload = parse_json_text(
        r#"{"id":"resp_tool_2","model":"gpt-5.4","status":"completed","output":[{"type":"function_call","call_id":"call_long","name":"mcp__super_long_tool_name_that_needs_shortening","arguments":"{}"}]}"#,
    )
    .unwrap();

    let chat_payload =
        build_chat_completion_payload(&responses_payload, "gpt-5.4", original_request);
    let choice = first_item(member(Some(&chat_payload), "choices"));
    let call = first_item(member(member(choice, "message"), "tool_calls"));
    assert_eq!(
        text_of(member(member(call, "function"), "name")).as_deref(),
        Some(
            "mcp__very_long_namespace_segment__very_long_server_name__super_long_tool_name_that_needs_shortening"
        )
    );
}

#[test]
fn chat_payload_fills_missing_fields_from_the_given_times() {
    let body = parse_json_text(r#"{"response":{"status":"in_progress","output":[{"type":"reasoning","summary":[{"type":"summary_text","text":"think"}]}]}}"#).unwrap();
    let payload = build_chat_completion_payload_at(&body, "gpt-x", b"", 1234, -5);
    assert_eq!(text_of(member(Some(&payload), "id")).as_deref(), Some("chatcmpl-local-1234"));
    assert_eq!(text_of(member(Some(&payload), "model")).as_deref(), Some("gpt-x"));
    assert_eq!(cockpit_core::json::i64_of(member(Some(&payload), "created")), Some(-5));
    let choice = first_item(member(Some(&payload), "choices"));
    let message = member(choice, "message");
    assert!(matches!(member(message, "content"), Some(JsonValue::Null)));
    assert_eq!(text_of(member(message, "reasoning_content")).as_deref(), Some("think"));
    assert_eq!(text_of(member(choice, "finish_reason")).as_deref(), Some("stop"));
    assert_eq!(
        u64_member(member(member(Some(&payload), "usage"), "prompt_tokens")),
        Some(0)
    );
}

#[test]
fn tool_names_are_shortened_to_64_bytes_and_made_unique() {
    assert_eq!(truncate_to_byte_limit("héllo", 2), "h");
    assert_eq!(truncate_to_byte_limit("héllo", 3), "hé");
    assert_eq!(truncate_to_byte_limit("abc", 10), "abc");
    let long = "x".repeat(70);
    assert_eq!(shorten_tool_name_if_needed(&long), "x".repeat(64));
    assert_eq!(
        shorten_tool_name_if_needed(&format!("mcp__{}__tail", "s".repeat(70))),
        "mcp__tail"
    );
    let body = parse_json_text(&format!(
        r#"{{"tools":[{{"type":"function","function":{{"name":"{a}1"}}}},{{"type":"function","function":{{"name":"{a}2"}}}},{{"type":"web_search"}}]}}"#,
        a = "y".repeat(70)
    ))
    .unwrap();
    let map = build_short_tool_name_map(&body);
    assert_eq!(map.pairs.len(), 2);
    assert_eq!(map.pairs[0].1, "y".repeat(64));
    assert_eq!(map.pairs[1].1, format!("{}_1", "y".repeat(62)));
    assert_eq!(map_tool_name(&format!("{}2", "y".repeat(70)), &map), format!("{}_1", "y".repeat(62)));
    assert_eq!(map_tool_name("short", &map), "short");
    assert_eq!(restore_tool_name(&"y".repeat(64), &map), format!("{}1", "y".repeat(70)));
    assert_eq!(restore_tool_name("unknown", &map), "unknown");
    assert_eq!(build_reverse_tool_name_map_from_request(b"not json").pairs.len(), 0);
}

fn test_account_with_plan(plan_type: &str) -> CodexAccount {
    let mut account = CodexAccount::new(
        format!("acc-{}", plan_type),
        format!("{}@example.com", plan_type),
        CodexTokens {
            id_token: String::new(),
            access_token: "access-token".to_string(),
            refresh_token: None,
        },
    );
    account.plan_type = Some(plan_type.to_string());
    account
}

fn has_image_generation_tool(body: &JsonValue) -> bool {
    match get_member(body, "tools") {
        Some(JsonValue::Array(tools)) => tools
            .iter()
            .any(|tool| text_of(get_member(tool, "type")).as_deref() == Some("image_generation")),
        _ => false,
    }
}

fn scoped(body: &[u8], account: &CodexAccount, mode: CodexLocalAccessImageGenerationMode) -> Vec<u8> {
    build_account_scoped_upstream_body(
        "/responses",
        body,
        account,
        mode,
        CodexLocalAccessRequestKind::Text,
    )
    .expect("body should build")
    .unwrap_or_else(|| body.to_vec())
}

#[test]
fn disabled_image_generation_mode_removes_declared_tool_and_choice() {
    let account = test_account_with_plan("plus");
    let body = br#"{
            "model":"gpt-5.4",
            "input":"hello",
            "tool_choice":{"type":"image_generation"},
            "tools":[
                {"type":"web_search_preview"},
                {"type":"image_generation","output_format":"png"}
            ]
        }"#;

    let mapped_body = scoped(body, &account, CodexLocalAccessImageGenerationMode::Disabled);
    let parsed = parse_json_bytes(&mapped_body).expect("body should remain json");

    assert!(!has_image_generation_tool(&parsed));
    assert!(get_member(&parsed, "tool_choice").is_none());
    match get_member(&parsed, "tools") {
        Some(JsonValue::Array(tools)) => assert!(tools
            .iter()
            .any(|tool| text_of(get_member(tool, "type")).as_deref() == Some("web_search_preview"))),
        _ => panic!("tools should remain an array"),
    }
}

#[test]
fn image_tool_is_added_only_for_non_free_accounts_when_allowed() {
    let body = br#"{"model":"gpt-5.4","stream":true,"input":"draw an icon"}"#;
    let paid = test_account_with_plan("plus");
    let paid_body = parse_json_bytes(&scoped(body, &paid, CodexLocalAccessImageGenerationMode::Enabled)).unwrap();
    match get_member(&paid_body, "tools") {
        Some(JsonValue::Array(tools)) => assert!(tools.iter().any(|tool| {
            text_of(get_member(tool, "type")).as_deref() == Some("image_generation")
                && text_of(get_member(tool, "output_format")).as_deref() == Some("png")
        })),
        _ => panic!("tools should be added"),
    }
    let free = test_account_with_plan("free");
    assert!(build_account_scoped_upstream_body(
        "/responses",
        body,
        &free,
        CodexLocalAccessImageGenerationMode::Enabled,
        CodexLocalAccessRequestKind::Text
    )
    .unwrap()
    .is_none());
    assert!(build_account_scoped_upstream_body(
        "/responses",
        body,
        &paid,
        CodexLocalAccessImageGenerationMode::ImagesOnly,
        CodexLocalAccessRequestKind::Text
    )
    .unwrap()
    .is_none());
    assert!(build_account_scoped_upstream_body(
        "/v1/chat/completions",
        body,
        &paid,
        CodexLocalAccessImageGenerationMode::Enabled,
        CodexLocalAccessRequestKind::Text
    )
    .unwrap()
    .is_none());
    let spark = br#"{"model":"gpt-5.3-codex-spark"}"#;
    assert!(build_account_scoped_upstream_body(
        "/responses",
        spark,
        &paid,
        CodexLocalAccessImageGenerationMode::Enabled,
        CodexLocalAccessRequestKind::Text
    )
    .unwrap()
    .is_none());
    assert!(should_inject_image_generation_tool(" GPT-5.4 "));
    assert!(!should_inject_image_generation_tool("  "));
}

#[test]
fn image_tool_choice_by_name_is_removed_too() {
    let mut entries = match parse_json_text(r#"{"tool_choice":{"type":"tool","name":"image_generation"},"tools":[]}"#).unwrap() {
        JsonValue::Object(e) => e,
        _ => unreachable!(),
    };
    assert!(remove_image_generation_tool_from_object(&mut entries));
    assert!(entries.iter().all(|(k, _)| k != "tool_choice"));
    let mut untouched = match parse_json_text(r#"{"tool_choice":"auto","tools":[{"type":"web_search"}]}"#).unwrap() {
        JsonValue::Object(e) => e,
        _ => unreachable!(),
    };
    assert!(!remove_image_generation_tool_from_object(&mut untouched));
    let mut with_tool = match parse_json_text(r#"{"model":"gpt-5.4","tools":[{"type":"image_generation"}]}"#).unwrap() {
        JsonValue::Object(e) => e,
        _ => unreachable!(),
    };
    assert!(!ensure_image_generation_tool_in_object(&mut with_tool));
}

#[test]
fn rewrites_snapshot_model_ids_in_request_bodies() {
    let rewritten = rewrite_request_model_alias(br#"{"model":"gpt-5.4-2026-03-05","input":"hello"}"#)
        .unwrap()
        .expect("model should be rewritten");
    let parsed = parse_json_bytes(&rewritten).unwrap();
    assert_eq!(text_member(&parsed, "model").as_deref(), Some("gpt-5.4"));
    assert!(rewrite_request_model_alias(br#"{"model":"gpt-5.4"}"#).unwrap().is_none());
    assert!(rewrite_request_model_alias(b"not json").unwrap().is_none());
    let mut value = parse_json_text(r#"{"model":"GPT-5.4-Mini-2026-03-05"}"#).unwrap();
    assert!(rewrite_request_model_alias_value(&mut value));
    assert_eq!(text_member(&value, "model").as_deref(), Some("gpt-5.4-mini"));
}

#[test]
fn images_generation_request_becomes_a_responses_request() {
    let body = parse_json_text(
        r#"{"model":"gpt-image-2","prompt":"draw a clean icon","size":"1024x1024","response_format":"b64_json"}"#,
    )
    .unwrap();
    let (mapped_body, stream, response_format) = build_images_generation_request(&body).unwrap();
    assert_eq!(text_member(&mapped_body, "model").as_deref(), Some("gpt-5.4-mini"));
    assert_eq!(
        text_of(member(member(Some(&mapped_body), "tool_choice"), "type")).as_deref(),
        Some("image_generation")
    );
    let tool = first_item(member(Some(&mapped_body), "tools"));
    assert_eq!(text_of(member(tool, "model")).as_deref(), Some("gpt-image-2"));
    assert_eq!(text_of(member(tool, "size")).as_deref(), Some("1024x1024"));
    assert_eq!(text_of(member(tool, "action")).as_deref(), Some("generate"));
    assert!(!stream);
    assert_eq!(response_format, "b64_json");
    let bytes = json_to_vec(&mapped_body).unwrap();
    assert!(String::from_utf8(bytes).unwrap().contains("[\"reasoning.encrypted_content\"]"));
}

#[test]
fn images_generation_rejects_unsupported_model() {
    let body = parse_json_text(r#"{"model":"gpt-image-1.5","prompt":"draw"}"#).unwrap();
    let err = build_images_generation_request(&body).expect_err("model should be rejected");
    assert!(err.contains("Use gpt-image-2"));
    assert_eq!(
        validate_image_model("  "),
        Err("Model <empty> is not supported on /v1/images/generations or /v1/images/edits. Use gpt-image-2.".to_string())
    );
    assert_eq!(validate_image_model(" openai/gpt-image-2 "), Ok("gpt-image-2".to_string()));
    assert_eq!(normalize_image_model_base("openai/"), "openai/");
    assert_eq!(normalize_image_response_format(None), "b64_json");
    let url = parse_json_text(r#"" URL ""#).unwrap();
    assert_eq!(normalize_image_response_format(Some(&url)), "url");
    let missing = parse_json_text(r#"{"model":"gpt-image-2"}"#).unwrap();
    assert_eq!(
        build_images_generation_request(&missing).unwrap_err(),
        "images/generations 请求缺少 prompt"
    );
}

#[test]
fn json_images_edit_request_carries_images_and_mask() {
    let body = parse_json_text(
        r#"{"prompt":"fix","image":" data:a ","images":[{"image_url":"data:b"},"data:c",{"x":1}],"mask":{"image_url":"data:m"},"input_fidelity":"high","partial_images":2,"stream":true}"#,
    )
    .unwrap();
    let (mapped, stream, format) = build_images_edit_request_from_json(&body).unwrap();
    assert!(stream);
    assert_eq!(format, "b64_json");
    let message = first_item(member(Some(&mapped), "input"));
    match member(message, "content") {
        Some(JsonValue::Array(parts)) => {
            assert_eq!(parts.len(), 4);
            assert_eq!(text_of(get_member(&parts[1], "image_url")).as_deref(), Some("data:a"));
            assert_eq!(text_of(get_member(&parts[3], "image_url")).as_deref(), Some("data:c"));
        },
        _ => panic!("content should be an array"),
    }
    let tool = first_item(member(Some(&mapped), "tools"));
    assert_eq!(text_of(member(tool, "action")).as_deref(), Some("edit"));
    assert_eq!(text_of(member(tool, "input_fidelity")).as_deref(), Some("high"));
    assert_eq!(u64_member(member(tool, "partial_images")), Some(2));
    assert_eq!(
        text_of(member(member(tool, "input_image_mask"), "image_url")).as_deref(),
        Some("data:m")
    );
    let no_images = parse_json_text(r#"{"prompt":"fix"}"#).unwrap();
    assert_eq!(
        build_images_edit_request_from_json(&no_images).unwrap_err(),
        "images/edits 请求缺少 images[].image_url"
    );
}

fn chat_to_responses(body: &[u8]) -> (JsonValue, bool, String) {
    let value = parse_request_body_json(body).expect("body parses");
    build_responses_body_from_chat_completions(&value).expect("request should map")
}

fn nth<'a>(value: Option<&'a JsonValue>, index: usize) -> Option<&'a JsonValue> {
    match value {
        Some(JsonValue::Array(items)) => items.get(index),
        _ => None,
    }
}

#[test]
fn chat_completions_body_maps_to_responses_body() {
    let (mapped_body, stream, requested_model) = chat_to_responses(
        br#"{"model":"GPT-5.4","stream":true,"messages":[{"role":"user","content":"hello"}]}"#,
    );
    assert_eq!(text_member(&mapped_body, "model").as_deref(), Some("gpt-5.4"));
    assert!(get_member(&mapped_body, "input").is_some());
    assert!(matches!(get_member(&mapped_body, "store"), Some(JsonValue::Bool(false))));
    assert!(matches!(get_member(&mapped_body, "stream"), Some(JsonValue::Bool(true))));
    assert_eq!(text_member(&mapped_body, "instructions").as_deref(), Some(""));
    assert!(matches!(get_member(&mapped_body, "parallel_tool_calls"), Some(JsonValue::Bool(true))));
    assert_eq!(
        text_of(member(member(Some(&mapped_body), "reasoning"), "effort")).as_deref(),
        Some("medium")
    );
    assert!(!has_image_generation_tool(&mapped_body));
    assert!(stream);
    assert_eq!(requested_model, "gpt-5.4");
}

#[test]
fn chat_completions_snapshot_model_ids_are_rewritten() {
    let (mapped_body, _, requested_model) = chat_to_responses(
        br#"{"model":"gpt-5.4-2026-03-05","messages":[{"role":"user","content":"hello"}]}"#,
    );
    assert_eq!(text_member(&mapped_body, "model").as_deref(), Some("gpt-5.4"));
    assert_eq!(requested_model, "gpt-5.4");
}

#[test]
fn chat_completions_sampling_params_are_not_carried() {
    let (mapped_body, stream, _) = chat_to_responses(
        br#"{"model":"gpt-5.4","temperature":0.2,"top_p":0.7,"messages":[{"role":"user","content":"hello"}]}"#,
    );
    assert!(get_member(&mapped_body, "temperature").is_none());
    assert!(get_member(&mapped_body, "top_p").is_none());
    assert!(!stream);
}

#[test]
fn chat_completions_text_parts_become_input_text() {
    let (mapped_body, _, _) = chat_to_responses(
        br#"{"model":"gpt-5.4","messages":[{"role":"user","content":[{"type":"text","text":"hello"}]}]}"#,
    );
    let first = nth(member(Some(&mapped_body), "input"), 0);
    let part = nth(member(first, "content"), 0);
    assert_eq!(text_of(member(part, "type")).as_deref(), Some("input_text"));
}

#[test]
fn chat_completions_function_tools_are_flattened() {
    let (mapped_body, _, _) = chat_to_responses(
        br#"{"model":"gpt-5.4","messages":[{"role":"user","content":"hello"}],"tools":[{"type":"function","function":{"name":"get_weather","description":"Get weather","parameters":{"type":"object","properties":{"location":{"type":"string"}}},"strict":true}}],"tool_choice":{"type":"function","function":{"name":"get_weather"}}}"#,
    );
    let tool = nth(member(Some(&mapped_body), "tools"), 0);
    assert_eq!(text_of(member(tool, "name")).as_deref(), Some("get_weather"));
    assert_eq!(
        text_of(member(member(Some(&mapped_body), "tool_choice"), "name")).as_deref(),
        Some("get_weather")
    );
    assert!(matches!(member(tool, "strict"), Some(JsonValue::Bool(true))));
    assert_eq!(text_of(member(tool, "description")).as_deref(), Some("Get weather"));
}

#[test]
fn chat_completions_tool_history_becomes_calls_and_outputs() {
    let (mapped_body, _, _) = chat_to_responses(
        br#"{"model":"gpt-5.4","messages":[{"role":"user","content":"weather?"},{"role":"assistant","content":null,"tool_calls":[{"id":"call_1","type":"function","function":{"name":"get_weather","arguments":"{\"location\":\"Paris\"}"}}]},{"role":"tool","tool_call_id":"call_1","content":"{\"temperature_c\":18}"}]}"#,
    );
    let input = member(Some(&mapped_body), "input");
    match input {
        Some(JsonValue::Array(items)) => assert_eq!(items.len(), 3),
        _ => panic!("input should be array"),
    }
    assert_eq!(text_of(member(nth(input, 0), "role")).as_deref(), Some("user"));
    assert_eq!(text_of(member(nth(input, 0), "type")).as_deref(), Some("message"));
    assert_eq!(text_of(member(nth(input, 1), "type")).as_deref(), Some("function_call"));
    assert_eq!(text_of(member(nth(input, 1), "name")).as_deref(), Some("get_weather"));
    assert_eq!(text_of(member(nth(input, 1), "call_id")).as_deref(), Some("call_1"));
    assert_eq!(text_of(member(nth(input, 2), "type")).as_deref(), Some("function_call_output"));
    assert_eq!(text_of(member(nth(input, 2), "call_id")).as_deref(), Some("call_1"));
    assert_eq!(
        text_of(member(nth(input, 2), "output")).as_deref(),
        Some("{\"temperature_c\":18}")
    );
}

#[test]
fn chat_completions_roles_parts_and_formats_follow_the_responses_shape() {
    let (mapped_body, _, _) = chat_to_responses(
        br#"{"model":"gpt-5.4","reasoning_effort":"high","messages":[{"role":"system","content":"be brief"},{"role":"assistant","content":[{"type":"text","text":"ok"}]},{"role":"user","content":[{"type":"image_url","image_url":{"url":"data:x"}},{"type":"file","file":{"file_data":"data:f","filename":"a.txt"}},{"type":"audio"}]}],"response_format":{"type":"json_schema","json_schema":{"name":"out","strict":true,"schema":{"type":"object"}}},"text":{"verbosity":"low"}}"#,
    );
    let input = member(Some(&mapped_body), "input");
    assert_eq!(text_of(member(nth(input, 0), "role")).as_deref(), Some("developer"));
    assert_eq!(
        text_of(member(nth(member(nth(input, 1), "content"), 0), "type")).as_deref(),
        Some("output_text")
    );
    let user_parts = member(nth(input, 2), "content");
    assert_eq!(text_of(member(nth(user_parts, 0), "type")).as_deref(), Some("input_image"));
    assert_eq!(text_of(member(nth(user_parts, 1), "filename")).as_deref(), Some("a.txt"));
    assert!(nth(user_parts, 2).is_none());
    assert_eq!(
        text_of(member(member(Some(&mapped_body), "reasoning"), "effort")).as_deref(),
        Some("high")
    );
    let text = member(Some(&mapped_body), "text");
    assert_eq!(text_of(member(member(text, "format"), "type")).as_deref(), Some("json_schema"));
    assert_eq!(text_of(member(member(text, "format"), "name")).as_deref(), Some("out"));
    assert_eq!(text_of(member(text, "verbosity")).as_deref(), Some("low"));

    let missing_model = parse_json_text(r#"{"messages":[]}"#).unwrap();
    assert_eq!(
        build_responses_body_from_chat_completions(&missing_model).unwrap_err(),
        "chat/completions 请求缺少 model"
    );
    let missing_messages = parse_json_text(r#"{"model":"gpt-5.4"}"#).unwrap();
    assert_eq!(
        build_responses_body_from_chat_completions(&missing_messages).unwrap_err(),
        "chat/completions 请求缺少 messages"
    );
}

#[test]
fn builds_chat_completion_stream_body_with_done_marker() {
    let upstream_sse = br#"data: {"type":"response.created","response":{"id":"resp_1","created_at":123,"model":"gpt-5.4"}}

data: {"type":"response.output_text.delta","delta":"stream-body"}

event: response.done
data: {"response":{"id":"resp_1","created_at":123,"model":"gpt-5.4","status":"completed","usage":{"input_tokens":1,"input_tokens_details":{"cached_tokens":1},"output_tokens":1,"total_tokens":2}}}

"#;

    let stream_body = build_chat_completion_stream_body(upstream_sse, br#"{}"#, "gpt-5.4");
    assert!(stream_body.contains("chat.completion.chunk"));
    assert!(stream_body.contains("stream-body"));
    assert!(stream_body.contains("\"cached_tokens\":1"));
    assert!(stream_body.contains("data: [DONE]"));
}

fn chunk_payloads(bytes: &[u8]) -> Vec<JsonValue> {
    let text = String::from_utf8(bytes.to_vec()).unwrap();
    text.split("\n\n")
        .filter_map(|frame| frame.strip_prefix("data: "))
        .filter(|payload| *payload != "[DONE]")
        .map(|payload| parse_json_text(payload).expect("chunk is json"))
        .collect()
}

#[test]
fn chat_stream_announces_tool_calls_and_finishes_with_tool_calls() {
    let mut transformer = ChatCompletionStreamTransformer::new(b"{}", "gpt-5.4");
    let mut out = transformer.feed_at(
        b"data: {\"type\":\"response.output_item.added\",\"item\":{\"type\":\"function_call\",\"call_id\":\"c1\",\"name\":\"get_weather\"}}\n\n",
        1000,
        7,
    );
    out.extend(transformer.feed_at(b"data: {\"type\":\"response.function_call_arguments.delta\",\"delta\":\"{\\\"a\\\"\"}\n\n", 1000, 7));
    out.extend(transformer.feed_at(b"data: {\"type\":\"response.function_call_arguments.done\",\"arguments\":\"ignored\"}\n\n", 1000, 7));
    out.extend(transformer.feed_at(b"data: {\"type\":\"response.output_item.done\",\"item\":{\"type\":\"function_call\",\"name\":\"get_weather\"}}\n\n", 1000, 7));
    out.extend(transformer.feed_at(b"data: {\"type\":\"response.completed\",\"response\":{\"usage\":{\"input_tokens\":3,\"output_tokens\":2}}}", 1000, 7));
    let (tail, capture) = transformer.finish_at(1000, 7);
    out.extend(tail);
    let chunks = chunk_payloads(&out);
    assert_eq!(chunks.len(), 3);
    assert_eq!(text_of(member(Some(&chunks[0]), "id")).as_deref(), Some("chatcmpl-local-1000"));
    assert_eq!(cockpit_core::json::i64_of(member(Some(&chunks[0]), "created")), Some(7));
    let call = nth(member(member(nth(member(Some(&chunks[0]), "choices"), 0), "delta"), "tool_calls"), 0);
    assert_eq!(text_of(member(member(call, "function"), "name")).as_deref(), Some("get_weather"));
    assert_eq!(text_of(member(call, "id")).as_deref(), Some("c1"));
    assert_eq!(u64_member(member(call, "index")), Some(0));
    let args = nth(member(member(nth(member(Some(&chunks[1]), "choices"), 0), "delta"), "tool_calls"), 0);
    assert_eq!(text_of(member(member(args, "function"), "arguments")).as_deref(), Some("{\"a\""));
    let last_choice = nth(member(Some(&chunks[2]), "choices"), 0);
    assert_eq!(text_of(member(last_choice, "finish_reason")).as_deref(), Some("tool_calls"));
    assert_eq!(u64_member(member(member(Some(&chunks[2]), "usage"), "total_tokens")), Some(5));
    assert_eq!(capture.usage.map(|u| u.input_tokens), Some(3));
    assert!(String::from_utf8(out).unwrap().ends_with("data: [DONE]\n\n"));
}

fn tool_call(chunk: &JsonValue) -> Option<&JsonValue> {
    nth(member(member(nth(member(Some(chunk), "choices"), 0), "delta"), "tool_calls"), 0)
}

#[test]
fn chat_stream_numbers_tool_calls_across_other_events() {
    let mut transformer = ChatCompletionStreamTransformer::new(b"{}", "gpt-5.4");
    let frames: [&[u8]; 8] = [
        b"data: {\"type\":\"response.output_item.added\",\"item\":{\"type\":\"function_call\",\"call_id\":\"c1\",\"name\":\"first\"}}\n\n",
        b"data: {\"type\":\"response.output_text.delta\",\"delta\":\"between\"}\n\n",
        b"data: {\"type\":\"response.output_item.done\",\"item\":{\"type\":\"function_call\",\"call_id\":\"c1\",\"name\":\"first\"}}\n\n",
        b"data: {\"type\":\"response.output_item.added\",\"item\":{\"type\":\"message\"}}\n\n",
        b"data: {\"type\":\"response.output_item.added\",\"item\":{\"type\":\"function_call\",\"call_id\":\"c2\",\"name\":\"second\"}}\n\n",
        b"data: {\"type\":\"response.function_call_arguments.delta\",\"delta\":\"{}\"}\n\n",
        b"data: {\"type\":\"response.function_call_arguments.done\",\"arguments\":\"{}\"}\n\n",
        b"data: {\"type\":\"response.output_item.done\",\"item\":{\"type\":\"function_call\",\"call_id\":\"c2\",\"name\":\"second\"}}\n\n",
    ];
    let mut out = Vec::new();
    for frame in frames.iter() {
        out.extend(transformer.feed_at(frame, 5, 5));
    }
    let chunks = chunk_payloads(&out);
    assert_eq!(chunks.len(), 4);
    let first = tool_call(&chunks[0]);
    assert_eq!(text_of(member(first, "id")).as_deref(), Some("c1"));
    assert_eq!(u64_member(member(first, "index")), Some(0));
    assert!(tool_call(&chunks[1]).is_none());
    let second = tool_call(&chunks[2]);
    assert_eq!(text_of(member(second, "id")).as_deref(), Some("c2"));
    assert_eq!(text_of(member(member(second, "function"), "name")).as_deref(), Some("second"));
    assert_eq!(u64_member(member(second, "index")), Some(1));
    let arguments = tool_call(&chunks[3]);
    assert_eq!(u64_member(member(arguments, "index")), Some(1));
    assert_eq!(text_of(member(member(arguments, "function"), "arguments")).as_deref(), Some("{}"));
}

#[test]
fn chat_stream_uses_response_metadata_and_reasoning_deltas() {
    let mut transformer = ChatCompletionStreamTransformer::new(b"{}", "requested");
    assert!(transformer.feed_at(b"", 1, 1).is_empty());
    let out = transformer.feed_at(
        b"data: {\"type\":\"response.created\",\"response\":{\"id\":\"resp_9\",\"created_at\":55,\"model\":\"m-1\"}}\n\ndata: {\"type\":\"response.reasoning_summary_text.delta\",\"delta\":\"thinking\"}\n\ndata: {\"type\":\"response.reasoning_summary_text.done\"}\n\ndata: {\"type\":\"response.completed\"}\n\n",
        1,
        1,
    );
    let chunks = chunk_payloads(&out);
    assert_eq!(chunks.len(), 3);
    assert_eq!(text_of(member(Some(&chunks[0]), "id")).as_deref(), Some("resp_9"));
    assert_eq!(text_of(member(Some(&chunks[0]), "model")).as_deref(), Some("m-1"));
    assert_eq!(u64_member(member(Some(&chunks[0]), "created")), Some(55));
    let delta = member(nth(member(Some(&chunks[0]), "choices"), 0), "delta");
    assert_eq!(text_of(member(delta, "reasoning_content")).as_deref(), Some("thinking"));
    assert_eq!(text_of(member(delta, "role")).as_deref(), Some("assistant"));
    let done_delta = member(nth(member(Some(&chunks[1]), "choices"), 0), "delta");
    assert_eq!(text_of(member(done_delta, "reasoning_content")).as_deref(), Some("\n\n"));
    let finish = nth(member(Some(&chunks[2]), "choices"), 0);
    assert_eq!(text_of(member(finish, "finish_reason")).as_deref(), Some("stop"));
    let (_, capture) = transformer.finish_at(1, 1);
    assert_eq!(capture.response_id.as_deref(), Some("resp_9"));
}

#[test]
fn builds_images_api_payload_from_responses_output() {
    let response = parse_json_text(
        r#"{"response":{"created_at":123,"output":[{"type":"image_generation_call","result":"aGVsbG8=","output_format":"png","revised_prompt":"draw a clean icon"}],"tool_usage":{"image_gen":{"input_images":0,"output_images":1}}}}"#,
    )
    .unwrap();

    let payload = build_images_api_payload(&response, "b64_json").expect("payload should build");
    assert_eq!(cockpit_core::json::i64_of(member(Some(&payload), "created")), Some(123));
    let first = nth(member(Some(&payload), "data"), 0);
    assert_eq!(text_of(member(first, "b64_json")).as_deref(), Some("aGVsbG8="));
    assert_eq!(text_of(member(first, "revised_prompt")).as_deref(), Some("draw a clean icon"));
}

#[test]
fn images_api_payload_gives_data_urls_and_metadata() {
    let response = parse_json_text(
        r#"{"output":[{"type":"image_generation_call","result":" QUJD ","output_format":"jpeg","size":"1024x1024","quality":"high"},{"type":"message"}]}"#,
    )
    .unwrap();
    let payload = build_images_api_payload_at(&response, " URL ", 99).unwrap();
    assert_eq!(u64_member(member(Some(&payload), "created")), Some(99));
    let first = nth(member(Some(&payload), "data"), 0);
    assert_eq!(text_of(member(first, "url")).as_deref(), Some("data:image/jpeg;base64,QUJD"));
    assert!(member(first, "revised_prompt").is_none());
    assert_eq!(text_of(member(Some(&payload), "size")).as_deref(), Some("1024x1024"));
    assert_eq!(text_of(member(Some(&payload), "quality")).as_deref(), Some("high"));
    assert!(member(Some(&payload), "background").is_none());
    assert!(member(Some(&payload), "usage").is_none());
    let empty = parse_json_text(r#"{"output":[]}"#).unwrap();
    assert_eq!(
        build_images_api_payload_at(&empty, "b64_json", 1).unwrap_err(),
        "upstream did not return image output"
    );
    assert_eq!(mime_type_from_output_format(" WEBP "), "image/webp");
    assert_eq!(mime_type_from_output_format("image/gif"), "image/gif");
    assert_eq!(mime_type_from_output_format("bmp"), "image/png");
}

#[test]
fn image_stream_passes_partial_images_and_completes() {
    let mut transformer = ImageStreamTransformer::new(" URL ", "image_generation");
    let out = transformer.feed(
        b"data: {\"type\":\"response.image_generation_call.partial_image\",\"partial_image_b64\":\"AAA\",\"partial_image_index\":1,\"output_format\":\"webp\"}\n\n",
    );
    let text = String::from_utf8(out).unwrap();
    assert!(text.starts_with("event: image_generation.partial_image\ndata: "));
    assert!(text.contains("data:image/webp;base64,AAA"));
    assert!(text.contains("\"partial_image_index\":1"));
    let tail = transformer.feed(
        b"data: {\"type\":\"response.completed\",\"response\":{\"output\":[{\"type\":\"image_generation_call\",\"result\":\"BBB\"}],\"tool_usage\":{\"image_gen\":{\"output_images\":1}},\"usage\":{\"input_tokens\":4}}}",
    );
    assert!(tail.is_empty());
    let (rest, capture) = transformer.finish();
    let rest = String::from_utf8(rest).unwrap();
    assert!(rest.starts_with("event: image_generation.completed\n"));
    assert!(rest.contains("data:image/png;base64,BBB"));
    assert!(rest.contains("\"output_images\":1"));
    assert_eq!(capture.usage.map(|u| u.input_tokens), Some(4));

    let mut failing = ImageStreamTransformer::new("", "image_edit");
    let out = failing.feed(b"data: {\"type\":\"response.done\",\"response\":{\"output\":[]}}\n\n");
    let text = String::from_utf8(out).unwrap();
    assert!(text.starts_with("event: error\n"));
    assert!(text.contains("upstream did not return image output"));
}
