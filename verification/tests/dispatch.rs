use cockpit_core::codex_body::normalize_responses_body_for_codex;
use cockpit_core::collection::{
    CodexLocalAccessApiKey, CodexLocalAccessCollection, CodexLocalAccessImageGenerationMode,
    CodexLocalAccessScope,
};
use cockpit_core::cursor_oauth::{build_cursor_import_payload, CursorLoginTokens};
use cockpit_core::http::{Headers, ParsedRequest};
use cockpit_core::json::{json_to_string, parse_json_text};
use cockpit_core::pool::{
    account_pool_step_at, pool_config, pool_initial_state, PoolAccount, PoolEffect, PoolEvent,
    PoolRequest,
};
use cockpit_core::rewrite_queue::{
    rewrite_if_unchanged_decision, schedule_account_rewrite_if_unchanged, PendingKeys,
};
use cockpit_core::route::{route_request, RouteDecision};
use cockpit_core::routing::CodexLocalAccessRoutingStrategy;
use cockpit_core::ws_pool::{websocket_bridge_step, ws_initial_state, WsConnectFailure, WsEvent, WsRequest};
use serde_json::Value;

fn collection(accounts: &[&str]) -> CodexLocalAccessCollection {
    CodexLocalAccessCollection {
        enabled: true,
        port: 1455,
        api_key: "legacy".to_string(),
        api_keys: vec![CodexLocalAccessApiKey {
            id: "k1".to_string(),
            label: "Main".to_string(),
            key: "secret".to_string(),
            model_prefix: None,
            allowed_models: Vec::new(),
            excluded_models: Vec::new(),
            enabled: true,
            created_at: 1,
            updated_at: 1,
            last_used_at: None,
        }],
        access_scope: CodexLocalAccessScope::Localhost,
        image_generation_mode: CodexLocalAccessImageGenerationMode::Disabled,
        upstream_proxy_url: None,
        routing_strategy: CodexLocalAccessRoutingStrategy::Auto,
        custom_routing_rules: Vec::new(),
        model_aliases: Vec::new(),
        excluded_models: Vec::new(),
        session_affinity: false,
        session_affinity_ttl_ms: 60_000,
        max_retry_credentials: 0,
        max_retry_interval_ms: 3_000,
        disable_cooling: false,
        restrict_free_accounts: true,
        bound_oauth_account_id: None,
        account_ids: accounts.iter().map(|s| s.to_string()).collect(),
        created_at: 1,
        updated_at: 1,
    }
}

fn request(method: &str, target: &str, headers: &[(&str, &str)]) -> ParsedRequest {
    let mut h = Headers::new();
    for (k, v) in headers {
        h.insert(k, v);
    }
    ParsedRequest { method: method.to_string(), target: target.to_string(), headers: h, body: Vec::new() }
}

#[test]
fn codex_normalization_shapes_a_responses_body() {
    let mut body = parse_json_text(
        r#"{"model":"gpt-5.4","instructions":"be brief","temperature":1,"top_p":0.5,"store":true,"input":[{"role":"assistant","content":[{"type":"text","text":"hi"}]},{"type":"function_call_output","output":"x"}],"tools":[{"type":"function","name":"f"},{"type":"web_search_preview"}]}"#,
    )
    .unwrap();
    normalize_responses_body_for_codex(&mut body);
    let v: Value = serde_json::from_str(&json_to_string(&body).unwrap()).unwrap();
    assert_eq!(v["stream"], true);
    assert_eq!(v["store"], false);
    assert_eq!(v["instructions"], "be brief");
    assert!(v.get("temperature").is_none());
    assert!(v.get("top_p").is_none());
    assert_eq!(v["input"][0]["content"][0]["type"], "output_text");
    assert_eq!(v["input"][1]["output"], "x");
    assert_eq!(v["tools"][0]["type"], "function");
    assert_eq!(v["tools"][1]["type"], "web_search");
    let mut not_object = parse_json_text("[1]").unwrap();
    normalize_responses_body_for_codex(&mut not_object);
    assert_eq!(json_to_string(&not_object).unwrap(), "[1]");
}

#[test]
fn requests_are_routed_at_the_door() {
    let c = Some(collection(&["a"]));
    assert!(matches!(route_request(&request("OPTIONS", "/v1/x", &[]), &c, true), RouteDecision::Options));
    match route_request(&request("PUT", "/v1/responses", &[]), &c, true) {
        RouteDecision::Reject { status, .. } => assert_eq!(status, 405),
        _ => panic!("expected a refusal"),
    }
    match route_request(&request("POST", "/other", &[]), &c, true) {
        RouteDecision::Reject { status, .. } => assert_eq!(status, 404),
        _ => panic!("expected a refusal"),
    }
    match route_request(&request("POST", "/v1/responses", &[]), &c, true) {
        RouteDecision::Reject { status, message, .. } => {
            assert_eq!(status, 401);
            assert_eq!(message, "缺少 Authorization Bearer 或 X-API-Key");
        }
        _ => panic!("expected a refusal"),
    }
    let auth = [("authorization", "Bearer secret")];
    match route_request(&request("POST", "/v1/responses", &auth), &c, false) {
        RouteDecision::Reject { status, .. } => assert_eq!(status, 503),
        _ => panic!("expected a refusal"),
    }
    match route_request(&request("POST", "/v1/responses", &[("authorization", "Bearer wrong")]), &c, true) {
        RouteDecision::Reject { status, message, .. } => {
            assert_eq!(status, 401);
            assert_eq!(message, "本地访问秘钥无效");
        }
        _ => panic!("expected a refusal"),
    }
    match route_request(&request("POST", "/v1/responses", &auth), &c, true) {
        RouteDecision::Proceed { target, api_key } => {
            assert_eq!(target, "/v1/responses");
            assert_eq!(api_key.id, "k1");
        }
        _ => panic!("expected to proceed"),
    }
    assert!(matches!(route_request(&request("GET", "/v1/models", &auth), &c, true), RouteDecision::Models { .. }));
    assert!(matches!(
        route_request(&request("POST", "/v1/images/generations", &auth), &c, true),
        RouteDecision::ImagesDisabled { .. }
    ));
    let ws = [
        ("authorization", "Bearer secret"),
        ("upgrade", "WebSocket"),
        ("connection", "keep-alive, Upgrade"),
        ("sec-websocket-key", "abc"),
    ];
    assert!(matches!(
        route_request(&request("GET", "/backend-api/codex/responses", &ws), &c, true),
        RouteDecision::WebSocket { .. }
    ));
    match route_request(&request("GET", "/v1/chat/completions", &ws), &c, true) {
        RouteDecision::Reject { status, .. } => assert_eq!(status, 404),
        _ => panic!("expected a refusal"),
    }
}

fn account(id: &str) -> PoolAccount {
    PoolAccount {
        id: id.to_string(),
        email: format!("{}@example.com", id),
        is_api_key: false,
        has_refresh_token: true,
        free_plan: false,
    }
}

#[test]
fn the_pool_moves_on_after_a_usage_limit_and_succeeds() {
    let c = pool_config(&collection(&["a", "b"]), "gpt-5.4", None);
    assert_eq!(c.max_attempts, 2);
    let s = pool_initial_state();
    let (s, act) = account_pool_step_at(&c, s, PoolEvent::Begin(Ok(())), 100);
    assert!(matches!(act.next, PoolRequest::OrderRound));
    let (s, act) = account_pool_step_at(&c, s, PoolEvent::Ordered(vec!["a".to_string(), "b".to_string()]), 100);
    assert!(matches!(act.next, PoolRequest::CheckCooldown(ref id) if id == "a"));
    let (s, act) = account_pool_step_at(&c, s, PoolEvent::Cooldown(None), 100);
    assert!(matches!(act.next, PoolRequest::Prepare(ref id) if id == "a"));
    let (s, act) = account_pool_step_at(&c, s, PoolEvent::Prepared(Ok(account("a"))), 100);
    assert!(matches!(act.next, PoolRequest::Send));
    let body = r#"{"error":{"type":"usage_limit_reached","resets_in_seconds":12}}"#.to_string();
    let (s, act) = account_pool_step_at(&c, s, PoolEvent::Sent(Ok((429, body))), 100);
    assert!(matches!(act.next, PoolRequest::CheckCooldown(ref id) if id == "b"));
    assert_eq!(act.effects.len(), 2);
    assert!(matches!(act.effects[1], PoolEffect::SetCooldown { wait_ms: 12_000, .. }));
    let (s, _) = account_pool_step_at(&c, s, PoolEvent::Cooldown(None), 100);
    let (s, _) = account_pool_step_at(&c, s, PoolEvent::Prepared(Ok(account("b"))), 100);
    let (_, act) = account_pool_step_at(&c, s, PoolEvent::Sent(Ok((200, String::new()))), 100);
    match act.next {
        PoolRequest::Succeed { account_id, .. } => assert_eq!(account_id, "b"),
        _ => panic!("expected success"),
    }
    assert!(matches!(act.effects[1], PoolEffect::MarkSuccess(ref id) if id == "b"));
}

#[test]
fn the_pool_answers_a_cooldown_when_every_account_cools() {
    let c = pool_config(&collection(&["a"]), "gpt-5.4", None);
    let s = pool_initial_state();
    let (s, _) = account_pool_step_at(&c, s, PoolEvent::Begin(Ok(())), 0);
    let (s, _) = account_pool_step_at(&c, s, PoolEvent::Ordered(vec!["a".to_string()]), 0);
    let (s, act) = account_pool_step_at(&c, s, PoolEvent::Cooldown(Some(60_000)), 0);
    let _ = s;
    match act.next {
        PoolRequest::Fail { status, category, .. } => {
            assert_eq!(status, 429);
            assert_eq!(category.as_deref(), Some("cooldown"));
        }
        _ => panic!("expected a cooldown answer"),
    }
    let empty = pool_config(&collection(&[]), "", None);
    let (_, act) = account_pool_step_at(&empty, pool_initial_state(), PoolEvent::Begin(Ok(())), 0);
    assert!(matches!(act.next, PoolRequest::Fail { status: 503, .. }));
}

#[test]
fn the_websocket_dispatch_refreshes_once_then_moves_on() {
    let s = ws_initial_state(2, false, true);
    let (s, _, r) = websocket_bridge_step(s, WsEvent::Begin(2, Ok(())));
    assert!(matches!(r, WsRequest::OrderAccounts));
    let (s, _, _) = websocket_bridge_step(s, WsEvent::Ordered(vec!["a".to_string(), "b".to_string()]));
    let (s, _, r) = websocket_bridge_step(s, WsEvent::Cooldown(None));
    assert!(matches!(r, WsRequest::Prepare(ref id) if id == "a"));
    let (s, _, _) = websocket_bridge_step(s, WsEvent::Prepared(Ok(account("a"))));
    let unauthorized = WsConnectFailure { status: Some(401), message: "no".to_string(), category: "auth_unavailable".to_string() };
    let (s, _, r) = websocket_bridge_step(s, WsEvent::Connected(Err(unauthorized)));
    assert!(matches!(r, WsRequest::Refresh(ref id) if id == "a"));
    let (s, _, r) = websocket_bridge_step(s, WsEvent::Refreshed(Ok(account("a"))));
    assert!(matches!(r, WsRequest::Connect));
    let again = WsConnectFailure { status: Some(401), message: "still no".to_string(), category: "x".to_string() };
    let (s, effects, r) = websocket_bridge_step(s, WsEvent::Connected(Err(again)));
    assert_eq!(effects.len(), 2);
    assert!(matches!(r, WsRequest::CheckCooldown(ref id) if id == "b"));
    let (s, _, _) = websocket_bridge_step(s, WsEvent::Cooldown(None));
    let (s, _, _) = websocket_bridge_step(s, WsEvent::Prepared(Ok(account("b"))));
    let down = WsConnectFailure { status: None, message: "boom".to_string(), category: "upstream_websocket".to_string() };
    let (_, _, r) = websocket_bridge_step(s, WsEvent::Connected(Err(down)));
    match r {
        WsRequest::Fail { status, message, account_id, .. } => {
            assert_eq!(status, 502);
            assert_eq!(message, "boom");
            assert_eq!(account_id.as_deref(), Some("b"));
        }
        _ => panic!("expected the last failure"),
    }
}

#[test]
fn the_newer_write_or_delete_wins() {
    let mut pending = PendingKeys::new();
    let job = schedule_account_rewrite_if_unchanged(&mut pending, "codex", "a1", "/tmp/a.json", b"old").unwrap();
    assert!(rewrite_if_unchanged_decision(&job, Some(b"old")));
    assert!(!rewrite_if_unchanged_decision(&job, Some(b"new")));
    assert!(!rewrite_if_unchanged_decision(&job, None));
}

#[test]
fn a_finished_cursor_login_becomes_an_import_payload() {
    let payload = build_cursor_import_payload(CursorLoginTokens {
        email: "a@b.c".to_string(),
        auth_id: Some("a@b.c".to_string()),
        access_token: "at".to_string(),
        refresh_token: "rt".to_string(),
    });
    assert_eq!(payload.refresh_token.as_deref(), Some("rt"));
    let raw = json_to_string(payload.cursor_auth_raw.as_ref().unwrap()).unwrap();
    let v: Value = serde_json::from_str(&raw).unwrap();
    assert_eq!(v["accessToken"], "at");
    assert_eq!(v["refreshToken"], "rt");
    assert_eq!(v["authId"], "a@b.c");
    assert!(payload.status.is_none());
}
