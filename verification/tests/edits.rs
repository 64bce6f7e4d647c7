use cockpit_core::chat_stream::ChatCompletionStreamTransformer;
use cockpit_core::account::{CodexAccount, CodexApiProviderMode, CodexTokens};
use cockpit_core::collection::{select_local_access_accounts, CodexLocalAccessApiKey, CodexLocalAccessCollection, CodexLocalAccessImageGenerationMode, CodexLocalAccessScope};
use cockpit_core::key_edits::{delete_api_key, rotate_api_key, update_api_key};
use cockpit_core::lifecycle::{
    apply_sidecar_probe, gateway_bind_endpoint, gateway_reconcile_action, record_gateway_failure,
    record_gateway_started, GatewayAction, GatewayStatus, SidecarProbe,
};
use cockpit_core::routing::CodexLocalAccessRoutingStrategy;

fn key(id: &str, text: &str, enabled: bool) -> CodexLocalAccessApiKey {
    CodexLocalAccessApiKey {
        id: id.to_string(),
        label: "API Key".to_string(),
        key: text.to_string(),
        model_prefix: None,
        allowed_models: Vec::new(),
        excluded_models: Vec::new(),
        enabled,
        created_at: 1,
        updated_at: 1,
        last_used_at: Some(5),
    }
}

#[test]
fn deleting_keys_keeps_one() {
    let mut one = vec![key("a", "ka", true)];
    assert_eq!(delete_api_key(&mut one, "a").unwrap_err(), "至少保留一个 API Key");
    assert_eq!(one.len(), 1);
    let mut two = vec![key("a", "ka", true), key("b", "kb", true)];
    assert_eq!(delete_api_key(&mut two, "zz").unwrap_err(), "API Key 不存在");
    assert_eq!(two.len(), 2);
    delete_api_key(&mut two, " a ").unwrap();
    assert_eq!(two.len(), 1);
    assert_eq!(two[0].id, "b");
}

#[test]
fn rotating_a_key_replaces_its_text() {
    let mut keys = vec![key("a", "ka", true), key("b", "kb", true)];
    rotate_api_key(&mut keys, "b", "new".to_string(), 99).unwrap();
    assert_eq!(keys[1].key, "new");
    assert_eq!(keys[1].updated_at, 99);
    assert_eq!(keys[1].last_used_at, None);
    assert_eq!(keys[0].key, "ka");
    assert!(rotate_api_key(&mut keys, "c", "x".to_string(), 1).is_err());
}

#[test]
fn updating_the_last_enabled_key_keeps_it_enabled() {
    let mut keys = vec![key("a", "ka", true), key("b", "kb", false)];
    update_api_key(
        &mut keys,
        "a",
        Some("  Mine ".to_string()),
        Some(false),
        Some(" /OpenAI/ ".to_string()),
        Some(vec![" gpt-5.4 ".to_string(), "gpt-5.4".to_string()]),
        None,
        42,
    )
    .unwrap();
    assert!(keys[0].enabled);
    assert_eq!(keys[0].label, "Mine");
    assert_eq!(keys[0].model_prefix.as_deref(), Some("openai"));
    assert_eq!(keys[0].allowed_models, vec!["gpt-5.4".to_string()]);
    assert_eq!(keys[0].updated_at, 42);
    update_api_key(&mut keys, "b", None, Some(true), None, None, None, 43).unwrap();
    update_api_key(&mut keys, "a", None, Some(false), None, None, None, 44).unwrap();
    assert!(!keys[0].enabled);
    assert!(update_api_key(&mut keys, "nope", None, None, None, None, None, 1).is_err());
}

#[test]
fn chosen_accounts_are_filtered_and_deduplicated() {
    let tokens = CodexTokens { id_token: "i".into(), access_token: "a".into(), refresh_token: None };
    let mut free = CodexAccount::new("free".into(), "f@x".into(), tokens.clone());
    free.plan_type = Some("free".into());
    let paid = CodexAccount::new("paid".into(), "p@x".into(), tokens);
    let api = CodexAccount::new_api_key("api".into(), "a@x".into(), " ".into(), CodexApiProviderMode::Custom, None, None, None);
    let accounts = vec![free, paid, api];
    let chosen: Vec<String> = ["paid", "free", "paid", "api", "ghost"].iter().map(|s| s.to_string()).collect();
    assert_eq!(select_local_access_accounts(&chosen, &accounts, true), vec!["paid".to_string()]);
    assert_eq!(
        select_local_access_accounts(&chosen, &accounts, false),
        vec!["paid".to_string(), "free".to_string()]
    );
}

fn collection(enabled: bool) -> CodexLocalAccessCollection {
    CodexLocalAccessCollection {
        enabled,
        port: 1455,
        api_key: "k".to_string(),
        api_keys: Vec::new(),
        access_scope: CodexLocalAccessScope::Localhost,
        image_generation_mode: CodexLocalAccessImageGenerationMode::Enabled,
        upstream_proxy_url: None,
        routing_strategy: CodexLocalAccessRoutingStrategy::Auto,
        custom_routing_rules: Vec::new(),
        model_aliases: Vec::new(),
        excluded_models: Vec::new(),
        session_affinity: false,
        session_affinity_ttl_ms: 60_000,
        max_retry_credentials: 0,
        max_retry_interval_ms: 0,
        disable_cooling: false,
        restrict_free_accounts: false,
        bound_oauth_account_id: None,
        account_ids: Vec::new(),
        created_at: 1,
        updated_at: 1,
    }
}

#[test]
fn the_service_follows_its_settings() {
    let mut status = GatewayStatus { running: false, actual_port: None, actual_bind_host: None, last_error: None };
    assert!(matches!(gateway_reconcile_action(&status, &None), GatewayAction::Stop));
    assert!(matches!(gateway_reconcile_action(&status, &Some(collection(false))), GatewayAction::Stop));
    match gateway_reconcile_action(&status, &Some(collection(true))) {
        GatewayAction::Start { port, bind_host } => {
            assert_eq!(port, 1455);
            assert_eq!(bind_host, "127.0.0.1");
        }
        _ => panic!("expected a start"),
    }
    record_gateway_started(&mut status, 1455, "127.0.0.1");
    assert!(matches!(gateway_reconcile_action(&status, &Some(collection(true))), GatewayAction::Keep));
    assert_eq!(gateway_bind_endpoint(&status), Some(("127.0.0.1".to_string(), 1455)));
    apply_sidecar_probe(&mut status, &SidecarProbe::Alive);
    assert!(status.running);
    apply_sidecar_probe(&mut status, &SidecarProbe::Exited("exit status: 1".to_string()));
    assert!(!status.running);
    assert_eq!(status.last_error.as_deref(), Some("API 服务 sidecar 已退出: exit status: 1"));
    assert!(matches!(gateway_reconcile_action(&status, &Some(collection(true))), GatewayAction::Start { .. }));
    record_gateway_failure(&mut status, "boom");
    assert_eq!(gateway_bind_endpoint(&status), None);
}

#[test]
fn chat_stream_numbers_tool_calls_and_finishes_with_tool_calls() {
    let mut t = ChatCompletionStreamTransformer::new(b"{}", "gpt-5.4");
    let mut input = String::new();
    for (i, id) in ["call_a", "call_b"].iter().enumerate() {
        input.push_str(&format!(
            "data: {{\"type\":\"response.output_item.added\",\"item\":{{\"type\":\"function_call\",\"call_id\":\"{}\",\"name\":\"tool{}\"}}}}\n\n",
            id, i
        ));
        input.push_str(&format!(
            "data: {{\"type\":\"response.output_item.done\",\"item\":{{\"type\":\"function_call\",\"call_id\":\"{}\",\"name\":\"tool{}\",\"arguments\":\"{{}}\"}}}}\n\n",
            id, i
        ));
    }
    input.push_str("data: {\"type\":\"response.completed\",\"response\":{}}\n\n");
    let out = String::from_utf8(t.feed(input.as_bytes())).unwrap();
    let chunks: Vec<serde_json::Value> = out
        .split("\n\n")
        .filter_map(|c| c.strip_prefix("data: "))
        .map(|c| serde_json::from_str(c).unwrap())
        .collect();
    assert_eq!(chunks.len(), 3);
    assert_eq!(chunks[0]["choices"][0]["delta"]["tool_calls"][0]["index"], 0);
    assert_eq!(chunks[0]["choices"][0]["delta"]["tool_calls"][0]["id"], "call_a");
    assert_eq!(chunks[1]["choices"][0]["delta"]["tool_calls"][0]["index"], 1);
    assert_eq!(chunks[2]["choices"][0]["finish_reason"], "tool_calls");
    let mut plain = ChatCompletionStreamTransformer::new(b"{}", "gpt-5.4");
    let text = String::from_utf8(plain.feed(b"data: {\"type\":\"response.completed\",\"response\":{}}\n\n")).unwrap();
    assert!(text.contains("\"finish_reason\":\"stop\""));
}
