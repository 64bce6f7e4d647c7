use cockpit_core::http::{Headers, ParsedRequest};
use cockpit_core::prepare::{
    build_local_models_response, is_local_models_request, build_request_stats_context, prepare_gateway_request, request_kind_from_adapter,
    stats_model_id_from_adapter, GatewayResponseAdapter,
};
use cockpit_core::collection::ResolvedLocalApiKey;
use cockpit_core::http::CodexLocalAccessRequestKind;
use serde_json::Value;
use cockpit_core::account::{CodexAccount, CodexTokens};
use cockpit_core::collection::CodexLocalAccessImageGenerationMode;
use cockpit_core::upstream_body::build_account_scoped_upstream_body;
use cockpit_core::prepare::build_codex_client_models_response;

fn request(method: &str, target: &str, headers: Headers, body: &[u8]) -> ParsedRequest {
    ParsedRequest {
        method: method.to_string(),
        target: target.to_string(),
        headers,
        body: body.to_vec(),
    }
}

fn has_image_generation_tool(body: &Value) -> bool {
    body.get("tools")
        .and_then(Value::as_array)
        .map(|tools| {
            tools
                .iter()
                .any(|tool| tool.get("type").and_then(Value::as_str) == Some("image_generation"))
        })
        .unwrap_or(false)
}

fn prepared_json(prepared: &ParsedRequest) -> Value {
    serde_json::from_slice(&prepared.body).expect("mapped body should be json")
}

#[test]
fn prepares_chat_completions_request_for_responses_proxy() {
    let req = request(
        "POST",
        "/v1/chat/completions",
        Headers::new(),
        br#"{"model":"GPT-5.4","stream":true,"messages":[{"role":"user","content":"hello"}]}"#,
    );
    let (prepared, adapter) = prepare_gateway_request(req).expect("request should map");
    assert_eq!(prepared.target, "/v1/responses");
    let mapped_body = prepared_json(&prepared);
    assert_eq!(mapped_body.get("model").and_then(Value::as_str), Some("gpt-5.4"));
    assert!(mapped_body.get("input").is_some());
    assert_eq!(mapped_body.get("store"), Some(&Value::Bool(false)));
    assert_eq!(mapped_body.get("stream"), Some(&Value::Bool(true)));
    assert_eq!(mapped_body.get("instructions").and_then(Value::as_str), Some(""));
    assert_eq!(mapped_body.get("parallel_tool_calls").and_then(Value::as_bool), Some(true));
    assert_eq!(
        mapped_body
            .get("reasoning")
            .and_then(|reasoning| reasoning.get("effort"))
            .and_then(Value::as_str),
        Some("medium")
    );
    assert!(!has_image_generation_tool(&mapped_body));
    match adapter {
        GatewayResponseAdapter::ChatCompletions { stream, requested_model, original_request_body: _ } => {
            assert!(stream);
            assert_eq!(requested_model, "gpt-5.4");
        }
        _ => panic!("expected chat completions adapter"),
    }
}

#[test]
fn prepares_images_generation_request_for_responses_proxy() {
    let req = request(
        "POST",
        "/v1/images/generations",
        Headers::new(),
        br#"{"model":"gpt-image-2","prompt":"draw a clean icon","size":"1024x1024","response_format":"b64_json"}"#,
    );
    let (prepared, adapter) = prepare_gateway_request(req).expect("request should map");
    assert_eq!(prepared.target, "/v1/responses");
    let mapped_body = prepared_json(&prepared);
    assert_eq!(mapped_body.get("model").and_then(Value::as_str), Some("gpt-5.4-mini"));
    assert_eq!(
        mapped_body
            .get("tool_choice")
            .and_then(|choice| choice.get("type"))
            .and_then(Value::as_str),
        Some("image_generation")
    );
    let first_tool = mapped_body
        .get("tools")
        .and_then(Value::as_array)
        .and_then(|tools| tools.first())
        .cloned()
        .unwrap_or(Value::Null);
    assert_eq!(first_tool.get("model").and_then(Value::as_str), Some("gpt-image-2"));
    assert_eq!(first_tool.get("size").and_then(Value::as_str), Some("1024x1024"));
    match adapter {
        GatewayResponseAdapter::Images { stream, response_format, stream_prefix } => {
            assert!(!stream);
            assert_eq!(response_format, "b64_json");
            assert_eq!(stream_prefix, "image_generation");
        }
        _ => panic!("expected images adapter"),
    }
}

#[test]
fn rejects_unsupported_images_model() {
    let req = request(
        "POST",
        "/v1/images/generations",
        Headers::new(),
        br#"{"model":"gpt-image-1.5","prompt":"draw"}"#,
    );
    let err = match prepare_gateway_request(req) {
        Ok(_) => panic!("model should be rejected"),
        Err(e) => e,
    };
    assert!(err.contains("Use gpt-image-2"));
}

#[test]
fn prepares_multipart_images_edit_request_for_responses_proxy() {
    let boundary = "test-boundary";
    let mut body = Vec::new();
    body.extend_from_slice(b"--test-boundary\r\n");
    body.extend_from_slice(b"Content-Disposition: form-data; name=\"model\"\r\n\r\n");
    body.extend_from_slice(b"gpt-image-2\r\n");
    body.extend_from_slice(b"--test-boundary\r\n");
    body.extend_from_slice(b"Content-Disposition: form-data; name=\"prompt\"\r\n\r\n");
    body.extend_from_slice(b"make it brighter\r\n");
    body.extend_from_slice(b"--test-boundary\r\n");
    body.extend_from_slice(b"Content-Disposition: form-data; name=\"image\"; filename=\"a.png\"\r\n");
    body.extend_from_slice(b"Content-Type: image/png\r\n\r\n");
    body.extend_from_slice(b"\x89PNG\r\n\x1a\nabc\r\n");
    body.extend_from_slice(b"--test-boundary--\r\n");
    let mut headers = Headers::new();
    headers.insert("content-type", &format!("multipart/form-data; boundary={}", boundary));
    let req = request("POST", "/v1/images/edits", headers, &body);

    let (prepared, adapter) = prepare_gateway_request(req).expect("request should map");
    assert_eq!(prepared.target, "/v1/responses");
    let mapped_body = prepared_json(&prepared);
    assert_eq!(
        mapped_body
            .get("tools")
            .and_then(Value::as_array)
            .and_then(|tools| tools.first())
            .and_then(|tool| tool.get("action"))
            .and_then(Value::as_str),
        Some("edit")
    );
    let has_input_image = mapped_body
        .get("input")
        .and_then(Value::as_array)
        .and_then(|items| items.first())
        .and_then(|item| item.get("content"))
        .and_then(Value::as_array)
        .map(|content| {
            content.iter().any(|part| {
                part.get("type").and_then(Value::as_str) == Some("input_image")
                    && part
                        .get("image_url")
                        .and_then(Value::as_str)
                        .map(|url| url.starts_with("data:image/png;base64,"))
                        .unwrap_or(false)
            })
        })
        .unwrap_or(false);
    assert!(has_input_image);
    match adapter {
        GatewayResponseAdapter::Images { stream_prefix, .. } => {
            assert_eq!(stream_prefix, "image_edit");
        }
        _ => panic!("expected images adapter"),
    }
}

#[test]
fn rewrites_snapshot_model_ids_for_chat_completions_requests() {
    let req = request(
        "POST",
        "/v1/chat/completions",
        Headers::new(),
        br#"{"model":"gpt-5.4-2026-03-05","messages":[{"role":"user","content":"hello"}]}"#,
    );
    let (prepared, adapter) = prepare_gateway_request(req).expect("request should map");
    let mapped_body = prepared_json(&prepared);
    assert_eq!(mapped_body.get("model").and_then(Value::as_str), Some("gpt-5.4"));
    match adapter {
        GatewayResponseAdapter::ChatCompletions { requested_model, .. } => {
            assert_eq!(requested_model, "gpt-5.4");
        }
        _ => panic!("expected chat completions adapter"),
    }
}

#[test]
fn drops_unsupported_sampling_params_for_responses_proxy() {
    let req = request(
        "POST",
        "/v1/chat/completions",
        Headers::new(),
        br#"{"model":"gpt-5.4","temperature":0.2,"top_p":0.7,"messages":[{"role":"user","content":"hello"}]}"#,
    );
    let (prepared, _) = prepare_gateway_request(req).expect("request should map");
    let mapped_body = prepared_json(&prepared);
    assert!(mapped_body.get("temperature").is_none());
    assert!(mapped_body.get("top_p").is_none());
}

#[test]
fn normalizes_text_content_parts_for_responses_proxy() {
    let req = request(
        "POST",
        "/v1/chat/completions",
        Headers::new(),
        br#"{"model":"gpt-5.4","messages":[{"role":"user","content":[{"type":"text","text":"hello"}]}]}"#,
    );
    let (prepared, _) = prepare_gateway_request(req).expect("request should map");
    let mapped_body = prepared_json(&prepared);
    let first_type = mapped_body
        .get("input")
        .and_then(Value::as_array)
        .and_then(|messages| messages.first())
        .and_then(|message| message.get("content"))
        .and_then(Value::as_array)
        .and_then(|parts| parts.first())
        .and_then(|part| part.get("type"))
        .and_then(Value::as_str);
    assert_eq!(first_type, Some("input_text"));
}

#[test]
fn normalizes_function_tools_for_responses_proxy() {
    let req = request(
        "POST",
        "/v1/chat/completions",
        Headers::new(),
        br#"{"model":"gpt-5.4","messages":[{"role":"user","content":"hello"}],"tools":[{"type":"function","function":{"name":"get_weather","description":"Get weather","parameters":{"type":"object","properties":{"location":{"type":"string"}}},"strict":true}}],"tool_choice":{"type":"function","function":{"name":"get_weather"}}}"#,
    );
    let (prepared, _) = prepare_gateway_request(req).expect("request should map");
    let mapped_body = prepared_json(&prepared);
    let first_tool = mapped_body
        .get("tools")
        .and_then(Value::as_array)
        .and_then(|tools| tools.first())
        .cloned()
        .unwrap_or(Value::Null);
    assert_eq!(first_tool.get("name").and_then(Value::as_str), Some("get_weather"));
    assert_eq!(
        mapped_body
            .get("tool_choice")
            .and_then(|choice| choice.get("name"))
            .and_then(Value::as_str),
        Some("get_weather")
    );
    assert_eq!(first_tool.get("strict").and_then(Value::as_bool), Some(true));
}

const TOOL_HISTORY: &[u8] = br#"{"model":"gpt-5.4","messages":[{"role":"user","content":"weather?"},{"role":"assistant","content":null,"tool_calls":[{"id":"call_1","type":"function","function":{"name":"get_weather","arguments":"{\"location\":\"Paris\"}"}}]},{"role":"tool","tool_call_id":"call_1","content":"{\"temperature_c\":18}"}]}"#;

#[test]
fn normalizes_tool_history_messages_for_responses_proxy() {
    let req = request("POST", "/v1/chat/completions", Headers::new(), TOOL_HISTORY);
    let (prepared, _) = prepare_gateway_request(req).expect("request should map");
    let mapped_body = prepared_json(&prepared);
    let input = mapped_body.get("input").and_then(Value::as_array).expect("input should be array");
    assert_eq!(input.first().and_then(|item| item.get("role")).and_then(Value::as_str), Some("user"));
    assert!(input.iter().any(|item| {
        item.get("type").and_then(Value::as_str) == Some("function_call")
            && item.get("name").and_then(Value::as_str) == Some("get_weather")
    }));
    assert!(input.iter().any(|item| {
        item.get("type").and_then(Value::as_str) == Some("function_call_output")
            && item.get("call_id").and_then(Value::as_str) == Some("call_1")
    }));
}

#[test]
fn skips_spurious_empty_assistant_message_for_tool_calls() {
    let req = request("POST", "/v1/chat/completions", Headers::new(), TOOL_HISTORY);
    let (prepared, _) = prepare_gateway_request(req).expect("request should map");
    let mapped_body = prepared_json(&prepared);
    let input = mapped_body.get("input").and_then(Value::as_array).expect("input should be array");
    assert_eq!(input.len(), 3);
    assert_eq!(input.first().and_then(|item| item.get("type")).and_then(Value::as_str), Some("message"));
    assert_eq!(input.get(1).and_then(|item| item.get("type")).and_then(Value::as_str), Some("function_call"));
    assert_eq!(
        input.get(2).and_then(|item| item.get("type")).and_then(Value::as_str),
        Some("function_call_output")
    );
}

#[test]
fn chat_completions_require_post() {
    let req = request("GET", "/v1/chat/completions", Headers::new(), b"{}");
    match prepare_gateway_request(req) {
        Ok(_) => panic!("GET should be refused"),
        Err(e) => assert_eq!(e, "chat/completions 仅支持 POST"),
    }
}

#[test]
fn chat_completions_require_json_body() {
    let req = request("POST", "/v1/chat/completions", Headers::new(), b"not json");
    match prepare_gateway_request(req) {
        Ok(_) => panic!("bad body should be refused"),
        Err(e) => assert_eq!(e, "chat/completions 请求体必须是合法 JSON"),
    }
}

#[test]
fn compaction_drops_stream_and_asks_for_json() {
    let req = request(
        "POST",
        "/v1/responses/compact",
        Headers::new(),
        br#"{"model":"gpt-5.4-2026-03-05","stream":true,"input":"x"}"#,
    );
    let (prepared, adapter) = prepare_gateway_request(req).expect("request should map");
    assert_eq!(prepared.target, "/v1/responses/compact");
    let mapped_body = prepared_json(&prepared);
    assert!(mapped_body.get("stream").is_none());
    assert_eq!(mapped_body.get("model").and_then(Value::as_str), Some("gpt-5.4"));
    assert_eq!(prepared.headers.get("accept").as_deref(), Some("application/json"));
    match adapter {
        GatewayResponseAdapter::Passthrough { request_is_stream } => assert!(!request_is_stream),
        _ => panic!("expected passthrough adapter"),
    }
}

#[test]
fn other_targets_pass_through_with_their_alias_resolved() {
    let req = request(
        "POST",
        "/v1/embeddings",
        Headers::new(),
        br#"{"model":"gpt-5.4-2026-03-05"}"#,
    );
    let (prepared, adapter) = prepare_gateway_request(req).expect("request should map");
    assert_eq!(prepared.target, "/v1/embeddings");
    let mapped_body = prepared_json(&prepared);
    assert_eq!(mapped_body.get("model").and_then(Value::as_str), Some("gpt-5.4"));
    assert!(matches!(adapter, GatewayResponseAdapter::Passthrough { request_is_stream: false }));
}

#[test]
fn stats_context_follows_the_adapter() {
    let req = request(
        "POST",
        "/v1/images/edits",
        Headers::new(),
        br#"{"prompt":"x","images":[{"image_url":"data:image/png;base64,AA=="}]}"#,
    );
    let key = ResolvedLocalApiKey {
        id: "k1".to_string(),
        label: "Main".to_string(),
        model_prefix: None,
        allowed_models: Vec::new(),
        excluded_models: Vec::new(),
    };
    let adapter = GatewayResponseAdapter::Images {
        stream: false,
        response_format: "b64_json".to_string(),
        stream_prefix: "image_edit".to_string(),
    };
    assert!(matches!(request_kind_from_adapter(&adapter), CodexLocalAccessRequestKind::ImageEdit));
    assert_eq!(stats_model_id_from_adapter(&req, &adapter), "gpt-image-2");
    let passthrough = GatewayResponseAdapter::Passthrough { request_is_stream: false };
    let text_req = request("POST", "/v1/responses", Headers::new(), br#"{"model":"  gpt-5.4  "}"#);
    assert_eq!(stats_model_id_from_adapter(&text_req, &passthrough), "gpt-5.4");
    let ctx = build_request_stats_context(&req, &adapter, &key);
    assert!(matches!(ctx.request_kind, CodexLocalAccessRequestKind::ImageEdit));
    assert_eq!(ctx.model_id, "gpt-image-2");
    assert_eq!(ctx.api_key_id, "k1");
    assert_eq!(ctx.api_key_label, "Main");
}

#[test]
fn local_models_include_codex_image_model() {
    let response = build_local_models_response(&vec!["gpt-5.4".to_string(), "gpt-image-2".to_string()]);
    let text = cockpit_core::json::json_to_string(&response).unwrap();
    let value: Value = serde_json::from_str(&text).unwrap();
    let has_image_model = value
        .get("data")
        .and_then(Value::as_array)
        .map(|models| models.iter().any(|model| model.get("id").and_then(Value::as_str) == Some("gpt-image-2")))
        .unwrap_or(false);
    assert!(has_image_model);
    assert_eq!(value["object"], "list");
    assert_eq!(value["data"][0]["owned_by"], "openai");
    assert!(is_local_models_request("/v1/models"));
    assert!(is_local_models_request("/v1/models?x=1"));
    assert!(!is_local_models_request("/v1/models/gpt"));
}

fn test_account_with_plan(plan_type: &str) -> CodexAccount {
    let mut account = CodexAccount::new(
        format!("acc-{}", plan_type),
        format!("{}@example.com", plan_type),
        CodexTokens { id_token: String::new(), access_token: "access-token".to_string(), refresh_token: None },
    );
    account.plan_type = Some(plan_type.to_string());
    account
}

fn scoped(body: &[u8], account: &CodexAccount, mode: CodexLocalAccessImageGenerationMode) -> Value {
    let bytes = build_account_scoped_upstream_body("/responses", body, account, mode, CodexLocalAccessRequestKind::Text)
        .expect("body should build")
        .unwrap_or_else(|| body.to_vec());
    serde_json::from_slice(&bytes).expect("body should be json")
}

#[test]
fn rewrites_snapshot_model_ids_for_passthrough_requests() {
    let req = request(
        "POST",
        "/v1/responses",
        Headers::new(),
        br#"{"model":"gpt-5.4-2026-03-05","input":"hello"}"#,
    );
    let (prepared, adapter) = prepare_gateway_request(req).expect("request should map");
    let mapped_body = prepared_json(&prepared);
    assert_eq!(mapped_body.get("model").and_then(Value::as_str), Some("gpt-5.4"));
    assert_eq!(mapped_body.get("stream").and_then(Value::as_bool), Some(true));
    match adapter {
        GatewayResponseAdapter::Passthrough { request_is_stream } => assert!(request_is_stream),
        _ => panic!("expected passthrough adapter"),
    }
}

#[test]
fn responses_stream_requests_stay_passthrough() {
    let mut headers = Headers::new();
    headers.insert("accept", "text/event-stream");
    let req = request(
        "POST",
        "/v1/responses",
        headers,
        br#"{"model":"gpt-5.4","stream":false,"store":true,"input":"hello","temperature":0.2}"#,
    );
    let (prepared, adapter) = prepare_gateway_request(req).expect("request should map");
    assert_eq!(prepared.target, "/v1/responses");
    let mapped_body = prepared_json(&prepared);
    assert_eq!(mapped_body.get("stream").and_then(Value::as_bool), Some(true));
    assert_eq!(mapped_body.get("store").and_then(Value::as_bool), Some(false));
    assert_eq!(mapped_body.get("instructions").and_then(Value::as_str), Some(""));
    assert!(mapped_body.get("temperature").is_none());
    assert_eq!(mapped_body.pointer("/input/0/content/0/text").and_then(Value::as_str), Some("hello"));
    match adapter {
        GatewayResponseAdapter::Passthrough { request_is_stream } => assert!(request_is_stream),
        _ => panic!("expected responses stream passthrough adapter"),
    }
}

#[test]
fn injects_image_generation_tool_only_for_non_free_responses_accounts() {
    let req = request("POST", "/v1/responses", Headers::new(), br#"{"model":"gpt-5.4","input":"draw an icon"}"#);
    let (prepared, adapter) = prepare_gateway_request(req).expect("request should map");
    let mapped_body = prepared_json(&prepared);
    assert!(!has_image_generation_tool(&mapped_body));
    assert_eq!(mapped_body.get("stream").and_then(Value::as_bool), Some(true));

    let paid_account = test_account_with_plan("plus");
    let paid_mapped_body = scoped(&prepared.body, &paid_account, CodexLocalAccessImageGenerationMode::Enabled);
    assert!(paid_mapped_body
        .get("tools")
        .and_then(Value::as_array)
        .map(|tools| tools.iter().any(|tool| {
            tool.get("type").and_then(Value::as_str) == Some("image_generation")
                && tool.get("output_format").and_then(Value::as_str) == Some("png")
        }))
        .unwrap_or(false));

    let free_account = test_account_with_plan("free");
    let free_mapped_body = scoped(&prepared.body, &free_account, CodexLocalAccessImageGenerationMode::Enabled);
    assert!(!has_image_generation_tool(&free_mapped_body));

    let images_only = scoped(&prepared.body, &paid_account, CodexLocalAccessImageGenerationMode::ImagesOnly);
    assert!(!has_image_generation_tool(&images_only));

    match adapter {
        GatewayResponseAdapter::Passthrough { request_is_stream } => assert!(request_is_stream),
        _ => panic!("expected passthrough adapter"),
    }
}

#[test]
fn normalizes_direct_responses_system_role_for_codex() {
    let req = request(
        "POST",
        "/v1/responses",
        Headers::new(),
        br#"{"model":"gpt-5.4","input":[{"type":"message","role":"system","content":"be concise"},{"type":"message","role":"user","content":[{"type":"text","text":"hello"}]}],"tools":[{"type":"web_search_preview"}]}"#,
    );
    let (prepared, _) = prepare_gateway_request(req).expect("request should map");
    let mapped_body = prepared_json(&prepared);
    assert_eq!(mapped_body.pointer("/input/0/role").and_then(Value::as_str), Some("developer"));
    assert_eq!(mapped_body.pointer("/input/0/content/0/type").and_then(Value::as_str), Some("input_text"));
    assert_eq!(mapped_body.pointer("/input/1/content/0/type").and_then(Value::as_str), Some("input_text"));
    assert_eq!(mapped_body.pointer("/tools/0/type").and_then(Value::as_str), Some("web_search"));
}

#[test]
fn codex_client_models_use_models_catalog_shape() {
    let response = build_codex_client_models_response(&vec!["gpt-5.4".to_string(), "gpt-image-2".to_string()]);
    let text = cockpit_core::json::json_to_string(&response).unwrap();
    let response: Value = serde_json::from_str(&text).unwrap();
    assert!(response.get("object").is_none());
    assert!(response.get("data").is_none());
    let models = response.get("models").and_then(Value::as_array).expect("codex client models should be an array");
    assert!(models.iter().any(|model| model.get("slug").and_then(Value::as_str) == Some("gpt-5.4")));
    assert!(models.iter().all(|model| model.get("prefer_websockets").and_then(Value::as_bool) == Some(true)));
}
