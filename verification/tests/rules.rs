use cockpit_core::account::{CodexAccount, CodexApiProviderMode, CodexTokens};
use cockpit_core::collection::{
    build_local_access_api_key, canonical_model_for_client_model, generate_local_api_key,
    generate_local_api_key_id, image_generation_tools_allowed, normalize_api_key_label,
    normalize_collection_api_keys, resolve_collection_api_key, sanitize_collection,
    selected_accounts_have_image_generation_capacity, validate_client_model_visible,
    visible_codex_model_ids_for_api_key, visible_codex_model_ids_for_collection,
    CodexLocalAccessApiKey, CodexLocalAccessCollection, CodexLocalAccessImageGenerationMode,
    CodexLocalAccessImageGenerationStatus, CodexLocalAccessScope, ResolvedLocalApiKey,
};
use cockpit_core::errors::{
    classify_upstream_error_category, classify_upstream_error_category_at, extract_upstream_error_message, gateway_error_code,
    is_image_generation_capability_error, is_image_generation_capability_message,
    is_quota_or_rate_limit_message, parse_codex_retry_after, parse_codex_retry_after_at, should_retry_single_account_upstream_status,
    should_try_next_account, single_account_status_retry_delay, summarize_upstream_error,
    upstream_send_retry_delay,
};
use cockpit_core::http::CodexLocalAccessRequestKind;
use cockpit_core::models::{
    add_model_prefix, apply_model_aliases_to_ids, apply_model_filters, model_matches_any_rule,
    normalize_model_aliases, normalize_model_prefix_value, normalize_model_rule_list,
    strip_model_prefix, supported_codex_model_ids, wildcard_model_matches,
    CodexLocalAccessModelAlias,
};
use cockpit_core::routing::{CodexLocalAccessCustomRoutingRule, CodexLocalAccessRoutingStrategy};

fn strings(items: &[&str]) -> Vec<String> {
    items.iter().map(|s| s.to_string()).collect()
}

fn alias(source: &str, name: &str, fork: bool) -> CodexLocalAccessModelAlias {
    CodexLocalAccessModelAlias {
        source_model: source.to_string(),
        alias: name.to_string(),
        fork,
    }
}

fn api_key(id: &str, key: &str, enabled: bool) -> CodexLocalAccessApiKey {
    CodexLocalAccessApiKey {
        id: id.to_string(),
        label: "Client".to_string(),
        key: key.to_string(),
        model_prefix: None,
        allowed_models: Vec::new(),
        excluded_models: Vec::new(),
        enabled,
        created_at: 5,
        updated_at: 6,
        last_used_at: None,
    }
}

fn collection(keys: Vec<CodexLocalAccessApiKey>) -> CodexLocalAccessCollection {
    CodexLocalAccessCollection {
        enabled: true,
        port: 1455,
        api_key: "legacy-key".to_string(),
        api_keys: keys,
        access_scope: CodexLocalAccessScope::Localhost,
        image_generation_mode: CodexLocalAccessImageGenerationMode::Enabled,
        upstream_proxy_url: None,
        routing_strategy: CodexLocalAccessRoutingStrategy::Auto,
        custom_routing_rules: Vec::new(),
        model_aliases: Vec::new(),
        excluded_models: Vec::new(),
        session_affinity: false,
        session_affinity_ttl_ms: 3_600_000,
        max_retry_credentials: 0,
        max_retry_interval_ms: 3_000,
        disable_cooling: false,
        restrict_free_accounts: true,
        bound_oauth_account_id: None,
        account_ids: Vec::new(),
        created_at: 1,
        updated_at: 2,
    }
}

fn oauth(id: &str, plan: &str) -> CodexAccount {
    let mut a = CodexAccount::new(
        id.to_string(),
        format!("{}@example.com", id),
        CodexTokens {
            id_token: String::new(),
            access_token: "t".to_string(),
            refresh_token: None,
        },
    );
    a.plan_type = Some(plan.to_string());
    a
}

#[test]
fn wildcard_rules_match_like_globs() {
    assert!(wildcard_model_matches("gpt-5*", "GPT-5.4-mini"));
    assert!(wildcard_model_matches(" * ", "anything"));
    assert!(wildcard_model_matches("*mini", "gpt-5.4-mini"));
    assert!(!wildcard_model_matches("*mini", "gpt-5.4-mini-2"));
    assert!(wildcard_model_matches("gpt-*-codex", "gpt-5.1-codex"));
    assert!(!wildcard_model_matches("gpt-*-codex", "gpt-5.1-codex-max"));
    assert!(wildcard_model_matches("a*b*c", "aXbYc"));
    assert!(!wildcard_model_matches("a*a", "a"));
    assert!(!wildcard_model_matches("", "gpt"));
    assert!(!wildcard_model_matches("*", "  "));
    assert!(wildcard_model_matches("gpt-5.4", " GPT-5.4 "));
    assert!(model_matches_any_rule("gpt-5.2", &strings(&["x*", "*5.2"])));
    assert!(!model_matches_any_rule("gpt-5.2", &Vec::new()));
}

#[test]
fn model_lists_filter_prefix_and_alias() {
    assert_eq!(
        normalize_model_rule_list(&strings(&[" a ", "A", "", "b"])),
        strings(&["a", "b"])
    );
    assert_eq!(
        apply_model_filters(strings(&["gpt-5.4", "gpt-5.4-mini", "gpt-5.2"]), &strings(&["gpt-5.4*"]), &strings(&["*mini"])),
        strings(&["gpt-5.4"])
    );
    assert_eq!(normalize_model_prefix_value(Some(" /Team/ ".to_string())).as_deref(), Some("team"));
    assert_eq!(normalize_model_prefix_value(Some(" // ".to_string())), None);
    assert_eq!(strip_model_prefix(" team/gpt-5.4 ", Some(" /team/ ")), "gpt-5.4");
    assert_eq!(strip_model_prefix("other/gpt-5.4", Some("team")), "other/gpt-5.4");
    assert_eq!(strip_model_prefix(" gpt ", None), "gpt");
    assert_eq!(add_model_prefix(strings(&["a", "b"]), Some(" /t/ ")), strings(&["t/a", "t/b"]));
    assert_eq!(add_model_prefix(strings(&["a"]), Some("  ")), strings(&["a"]));

    let aliases = normalize_model_aliases(vec![
        alias(" gpt-5.4 ", " fast ", false),
        alias("gpt-5.2", "FAST", true),
        alias("gpt-5.2", "GPT-5.2", false),
        alias("", "x", false),
        alias("gpt-5.2", "smart", true),
    ]);
    assert_eq!(aliases.len(), 2);
    assert_eq!(aliases[0].source_model, "gpt-5.4");
    assert_eq!(aliases[0].alias, "fast");
    assert_eq!(aliases[1].alias, "smart");
    let visible = apply_model_aliases_to_ids(strings(&["gpt-5.4", "gpt-5.2", "gpt-5.1", "GPT-5.1"]), &aliases);
    assert_eq!(visible, strings(&["fast", "gpt-5.2", "smart", "gpt-5.1"]));
    assert_eq!(apply_model_aliases_to_ids(strings(&["x", "X"]), &Vec::new()), strings(&["x", "X"]));
}

#[test]
fn client_keys_are_normalized_and_resolved() {
    let mut c = collection(Vec::new());
    assert!(normalize_collection_api_keys(&mut c, 100));
    assert_eq!(c.api_keys.len(), 1);
    assert_eq!(c.api_keys[0].key, "legacy-key");
    assert_eq!(c.api_keys[0].label, "Default");
    assert!(c.api_keys[0].id.starts_with("key_"));
    assert_eq!(c.api_key, "legacy-key");

    let mut c = collection(vec![
        api_key(" k1 ", " sk-1 ", false),
        api_key("k1", "sk-2", true),
        api_key("k3", "sk-1", true),
        api_key("k4", "  ", true),
    ]);
    assert!(normalize_collection_api_keys(&mut c, 100));
    assert_eq!(c.api_keys.len(), 2);
    assert_eq!(c.api_keys[0].id, "k1");
    assert_eq!(c.api_keys[0].key, "sk-1");
    assert!(c.api_keys[1].id.starts_with("key_") && c.api_keys[1].id.len() == 16);
    assert_eq!(c.api_key, "sk-2");

    let mut c = collection(vec![api_key("k", "sk", true)]);
    c.api_key = "sk".to_string();
    assert!(!normalize_collection_api_keys(&mut c, 100));

    let resolved = resolve_collection_api_key(&c, " sk ").unwrap();
    assert_eq!(resolved.id, "k");
    assert_eq!(resolved.label, "Client");
    let mut legacy = collection(vec![api_key("k", "sk", false)]);
    legacy.api_key = "old".to_string();
    assert_eq!(resolve_collection_api_key(&legacy, "old").unwrap().id, "legacy");
    assert!(resolve_collection_api_key(&legacy, "sk").is_none());
    assert!(resolve_collection_api_key(&legacy, "   ").is_none());

    assert_eq!(normalize_api_key_label(Some("  "), " Fallback "), "Fallback");
    assert_eq!(normalize_api_key_label(None, ""), "Default");
    let key = generate_local_api_key();
    assert!(key.starts_with("agt_codex_") && key.len() == 42);
    assert!(key.chars().skip(10).all(|c| c.is_ascii_alphanumeric()));
    assert_eq!(generate_local_api_key_id().len(), 16);
    let built = build_local_access_api_key(Some(" Team "), 9);
    assert_eq!(built.label, "Team");
    assert!(built.enabled);
    assert_eq!(built.created_at, 9);
}

#[test]
fn sanitize_brings_a_stored_collection_into_shape() {
    let mut c = collection(vec![api_key("k", "sk", true)]);
    c.api_key = "sk".to_string();
    c.port = 0;
    c.created_at = 0;
    c.upstream_proxy_url = Some("  ".to_string());
    c.bound_oauth_account_id = Some(" api-1 ".to_string());
    c.account_ids = strings(&["a", "free-1", "a", "gone", "api-1"]);
    c.custom_routing_rules = vec![
        CodexLocalAccessCustomRoutingRule { account_id: "gone".to_string(), priority: 1, weight: 1 },
        CodexLocalAccessCustomRoutingRule { account_id: "a".to_string(), priority: 2, weight: 3 },
    ];
    c.excluded_models = strings(&[" x ", "X"]);
    c.session_affinity_ttl_ms = 5;
    c.max_retry_credentials = 20;
    c.max_retry_interval_ms = 99_999;
    let api = CodexAccount::new_api_key(
        "api-1".to_string(),
        "api@example.com".to_string(),
        "sk-up".to_string(),
        CodexApiProviderMode::Custom,
        None,
        None,
        None,
    );
    let accounts = vec![oauth("a", "plus"), oauth("free-1", "free"), api];
    let (changed, valid) = sanitize_collection(&mut c, Ok(8080), Ok(accounts), 500).unwrap();
    assert!(changed);
    assert_eq!(c.port, 8080);
    assert_eq!(c.created_at, 500);
    assert_eq!(c.upstream_proxy_url, None);
    assert_eq!(c.bound_oauth_account_id, None);
    assert_eq!(c.account_ids, strings(&["a", "api-1"]));
    assert_eq!(c.custom_routing_rules.len(), 1);
    assert_eq!(c.custom_routing_rules[0].account_id, "a");
    assert_eq!(c.excluded_models, strings(&["x"]));
    assert_eq!(c.session_affinity_ttl_ms, 60_000);
    assert_eq!(c.max_retry_credentials, 8);
    assert_eq!(c.max_retry_interval_ms, 30_000);
    let mut valid = valid;
    valid.sort();
    assert_eq!(valid, strings(&["a", "api-1"]));

    let mut unchanged = c.clone();
    let (changed, _) = sanitize_collection(&mut unchanged, Ok(1), Ok(vec![oauth("a", "plus")]), 500).unwrap();
    assert!(changed);
    assert_eq!(unchanged.account_ids, strings(&["a"]));

    let mut failing = collection(Vec::new());
    failing.port = 0;
    assert_eq!(
        sanitize_collection(&mut failing, Err("no port".to_string()), Ok(Vec::new()), 1).unwrap_err(),
        "no port"
    );
    assert!(failing.api_keys.is_empty());
    assert_eq!(
        sanitize_collection(&mut failing, Ok(2), Err("no accounts".to_string()), 1).unwrap_err(),
        "no accounts"
    );
}

#[test]
fn visible_models_follow_collection_and_key() {
    let catalog = supported_codex_model_ids(&Vec::new());
    let mut c = collection(Vec::new());
    c.model_aliases = vec![alias("gpt-5.4", "fast", true)];
    c.excluded_models = strings(&["*codex*"]);
    let visible = visible_codex_model_ids_for_collection(&catalog, false, &c);
    assert_eq!(visible, strings(&["gpt-5.4", "fast", "gpt-5.4-mini", "gpt-5.2"]));
    let key = ResolvedLocalApiKey {
        id: "k".to_string(),
        label: "K".to_string(),
        model_prefix: Some("team".to_string()),
        allowed_models: strings(&["gpt-5.4*", "fast"]),
        excluded_models: strings(&["*mini"]),
    };
    assert_eq!(
        visible_codex_model_ids_for_api_key(&catalog, false, &c, &key),
        strings(&["team/gpt-5.4", "team/fast"])
    );
    let canonical = canonical_model_for_client_model("team/FAST", &catalog, &c, &key);
    assert_eq!(canonical, "gpt-5.4");
    assert!(validate_client_model_visible("team/fast", &canonical, &catalog, false, &c, &key));
    let canonical = canonical_model_for_client_model("team/gpt-5.4-2026-01-01", &catalog, &c, &key);
    assert_eq!(canonical, "gpt-5.4");
    assert!(validate_client_model_visible("team/gpt-5.4-2026-01-01", &canonical, &catalog, false, &c, &key));
    assert!(!validate_client_model_visible("team/gpt-5.4-mini", "gpt-5.4-mini", &catalog, false, &c, &key));
    assert!(!validate_client_model_visible("team/gpt-image-2", "gpt-image-2", &catalog, false, &c, &key));

    c.account_ids = strings(&["a"]);
    let accounts = Ok(vec![oauth("a", "plus")]);
    assert!(selected_accounts_have_image_generation_capacity(&c, &accounts, None));
    let health = vec![("a".to_string(), CodexLocalAccessImageGenerationStatus::Unavailable)];
    assert!(!selected_accounts_have_image_generation_capacity(&c, &accounts, Some(&health)));
    assert!(selected_accounts_have_image_generation_capacity(&c, &Err("x".to_string()), None));
    c.image_generation_mode = CodexLocalAccessImageGenerationMode::Disabled;
    assert!(!selected_accounts_have_image_generation_capacity(&c, &accounts, None));
    assert!(!image_generation_tools_allowed(CodexLocalAccessImageGenerationMode::ImagesOnly, CodexLocalAccessRequestKind::Text));
    assert!(image_generation_tools_allowed(CodexLocalAccessImageGenerationMode::ImagesOnly, CodexLocalAccessRequestKind::ImageEdit));
}

#[test]
fn retries_next_account_for_transient_upstream_status() {
    assert!(should_try_next_account(503, "upstream temporarily unavailable"));
    assert!(should_try_next_account(502, "gateway error"));
}

#[test]
fn does_not_retry_forbidden_without_quota_or_capacity_markers() {
    assert!(!should_try_next_account(403, r#"{"error":"forbidden"}"#));
}

#[test]
fn forbidden_and_rate_limited_retry_only_with_markers() {
    assert!(!should_try_next_account(403, "forbidden by policy"));
    assert!(should_try_next_account(403, "Quota exceeded for today"));
    assert!(should_try_next_account(429, "Selected model is at capacity"));
    assert!(!should_try_next_account(429, "slow down"));
}

#[test]
fn parses_codex_retry_after_from_usage_limit_payload() {
    let wait = parse_codex_retry_after(
        429,
        r#"{"error":{"type":"usage_limit_reached","resets_in_seconds":12}}"#,
    )
    .expect("retry after should be parsed");

    assert_eq!(wait, 12);
}

#[test]
fn retry_after_prefers_future_reset_time() {
    assert_eq!(
        parse_codex_retry_after_at(429, r#"{"error":{"type":" usage_limit_reached ","resets_at":1010,"resets_in_seconds":3}}"#, 1_000),
        Some(10)
    );
    assert_eq!(
        parse_codex_retry_after_at(429, r#"{"error":{"type":"usage_limit_reached","resets_at":900,"resets_in_seconds":3}}"#, 1_000),
        Some(3)
    );
    assert_eq!(parse_codex_retry_after_at(400, r#"{"error":{"type":"usage_limit_reached","resets_in_seconds":12}}"#, 0), None);
    assert_eq!(parse_codex_retry_after_at(429, "not json", 0), None);
}

#[test]
fn retries_next_account_for_image_generation_capability_error() {
    let body = r#"{"error":{"message":"Image generation is not enabled for this group"}}"#;
    assert!(is_image_generation_capability_error(403, body));
    assert!(should_try_next_account(403, body));
    assert_eq!(
        classify_upstream_error_category(403, body),
        Some("image_generation_not_enabled")
    );
}

#[test]
fn retries_single_account_for_transient_upstream_status() {
    assert!(should_retry_single_account_upstream_status(503));
    assert!(should_retry_single_account_upstream_status(504));
    assert!(!should_retry_single_account_upstream_status(429));
    assert!(!should_retry_single_account_upstream_status(403));
}

#[test]
fn image_capability_errors_need_a_client_status() {
    let body = r#"{"error":{"message":"Image generation is not enabled for this account"}}"#;
    assert!(is_image_generation_capability_error(400, body));
    assert!(should_try_next_account(400, body));
    assert!(!is_image_generation_capability_error(500, body));
    assert_eq!(classify_upstream_error_category_at(400, body, 0), Some("image_generation_not_enabled"));
    assert!(is_image_generation_capability_message(Some(403), "账号 x 未启用图片生成能力"));
    assert!(!is_image_generation_capability_message(None, "image_generation_not_enabled"));
}

#[test]
fn classifies_and_summarizes_upstream_errors() {
    assert_eq!(classify_upstream_error_category_at(401, "", 0), Some("auth_unavailable"));
    assert_eq!(
        classify_upstream_error_category_at(429, r#"{"error":{"type":"usage_limit_reached","resets_in_seconds":5}}"#, 0),
        Some("usage_limit_reached")
    );
    assert_eq!(classify_upstream_error_category_at(400, "Context length exceeded", 0), Some("context_too_large"));
    assert_eq!(classify_upstream_error_category_at(503, "model is at capacity", 0), Some("model_capacity"));
    assert_eq!(classify_upstream_error_category_at(500, "boom", 0), None);
    assert!(is_quota_or_rate_limit_message(Some(429), ""));
    assert!(is_quota_or_rate_limit_message(None, "账号额度不足"));
    assert!(!is_quota_or_rate_limit_message(Some(500), "boom"));
    assert!(should_retry_single_account_upstream_status(504));
    assert!(!should_retry_single_account_upstream_status(429));
    assert_eq!(gateway_error_code(429), "rate_limited");
    assert_eq!(gateway_error_code(418), "codex_local_access_error");
    assert_eq!(
        extract_upstream_error_message(r#"{"error":{"message":"  "},"detail":{"message":" d "}}"#).as_deref(),
        Some("d")
    );
    assert_eq!(extract_upstream_error_message(r#"{"error":"plain"}"#).as_deref(), Some("plain"));
    assert_eq!(summarize_upstream_error(502, ""), "502: 上游接口返回状态 502");
    assert_eq!(summarize_upstream_error(400, " raw text "), "400: raw text");
    assert_eq!(summarize_upstream_error(429, r#"{"message":"slow"}"#), "429: slow");
    assert_eq!(upstream_send_retry_delay(0), 200);
    assert_eq!(upstream_send_retry_delay(2), 400);
    assert_eq!(upstream_send_retry_delay(9), 800);
    assert_eq!(single_account_status_retry_delay(3), 1200);
}
