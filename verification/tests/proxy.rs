use cockpit_core::collection::{
    CodexLocalAccessCollection, CodexLocalAccessImageGenerationMode, CodexLocalAccessScope,
};
use cockpit_core::json::{json_to_vec, JsonValue};
use cockpit_core::proxy::{
    current_upstream_http_client_signature, env_proxy_keys, gateway_error_body,
    gateway_proxy_diagnostics_message, gateway_user_visible_error_message,
    normalize_upstream_proxy_url, sidecar_effective_proxy_url, upstream_env_proxy_url,
    upstream_proxy_source_code, validate_upstream_proxy_config, UpstreamProxyDiagnostics,
    UpstreamProxySource,
};
use cockpit_core::routing::CodexLocalAccessRoutingStrategy;

fn text(value: &JsonValue) -> String {
    String::from_utf8(json_to_vec(value).unwrap()).unwrap()
}

fn collection_with_proxy(proxy: Option<&str>) -> CodexLocalAccessCollection {
    CodexLocalAccessCollection {
        enabled: true,
        port: 1455,
        api_key: "key".to_string(),
        api_keys: Vec::new(),
        access_scope: CodexLocalAccessScope::Localhost,
        image_generation_mode: CodexLocalAccessImageGenerationMode::Enabled,
        upstream_proxy_url: proxy.map(str::to_string),
        routing_strategy: CodexLocalAccessRoutingStrategy::Auto,
        custom_routing_rules: Vec::new(),
        model_aliases: Vec::new(),
        excluded_models: Vec::new(),
        session_affinity: false,
        session_affinity_ttl_ms: 3_600_000,
        max_retry_credentials: 0,
        max_retry_interval_ms: 3_000,
        disable_cooling: false,
        restrict_free_accounts: true,
        bound_oauth_account_id: None,
        account_ids: Vec::new(),
        created_at: 1,
        updated_at: 2,
    }
}

#[test]
fn proxy_source_follows_the_settings_in_order() {
    let api = current_upstream_http_client_signature(Some(" http://127.0.0.1:7890 "), true, "http://g:1", None);
    assert_eq!(api.proxy_source, UpstreamProxySource::ApiService);
    assert_eq!(api.proxy_url.as_deref(), Some("http://127.0.0.1:7890"));
    let global = current_upstream_http_client_signature(Some("  "), true, " http://g:1 ", Some("http://e:2".to_string()));
    assert_eq!(global.proxy_source, UpstreamProxySource::Global);
    assert_eq!(global.proxy_url.as_deref(), Some("http://g:1"));
    let env = current_upstream_http_client_signature(None, false, "http://g:1", Some("http://e:2".to_string()));
    assert_eq!(env.proxy_source, UpstreamProxySource::SystemEnv);
    let auto = current_upstream_http_client_signature(None, true, " ", None);
    assert_eq!(auto.proxy_source, UpstreamProxySource::SystemAuto);
    assert_eq!(auto.proxy_url, None);
}

#[test]
fn environment_proxy_is_the_first_set_variable() {
    let keys = env_proxy_keys();
    assert_eq!(keys, vec!["HTTPS_PROXY", "https_proxy", "ALL_PROXY", "all_proxy", "HTTP_PROXY", "http_proxy"]);
    let values = vec![None, Some("  ".to_string()), Some(" socks5://h:1 ".to_string()), Some("http://x:2".to_string()), None, None];
    assert_eq!(upstream_env_proxy_url(&values).as_deref(), Some("socks5://h:1"));
    assert_eq!(upstream_env_proxy_url(&vec![None; 6]), None);
}

#[test]
fn proxy_settings_are_checked() {
    assert_eq!(normalize_upstream_proxy_url(Some("  ".to_string())), None);
    assert_eq!(validate_upstream_proxy_config(Some(" http://127.0.0.1:7890 ".to_string())), Ok(Some("http://127.0.0.1:7890".to_string())));
    assert_eq!(validate_upstream_proxy_config(None), Ok(None));
    let refused = validate_upstream_proxy_config(Some("http://exa mple.com:abc".to_string()));
    assert!(refused.unwrap_err().starts_with("API 代理地址无效: "));
    let own = collection_with_proxy(Some("http://127.0.0.1:1080"));
    assert_eq!(sidecar_effective_proxy_url(&own, true, "http://g:1"), Ok(Some("http://127.0.0.1:1080".to_string())));
    let none = collection_with_proxy(None);
    assert_eq!(sidecar_effective_proxy_url(&none, true, " http://g:1 "), Ok(Some("http://g:1".to_string())));
    assert_eq!(sidecar_effective_proxy_url(&none, false, "http://g:1"), Ok(None));
    assert!(sidecar_effective_proxy_url(&none, true, "http://exa mple.com:abc").unwrap_err().starts_with("全局代理地址无效: "));
}

#[test]
fn error_bodies_explain_the_proxy_on_bad_gateway() {
    let diag = UpstreamProxyDiagnostics { proxy_source: UpstreamProxySource::Global, proxy_url: Some("http://redacted:redacted@g:1/".to_string()) };
    assert_eq!(upstream_proxy_source_code(UpstreamProxySource::SystemEnv), "system_env");
    assert_eq!(
        gateway_proxy_diagnostics_message(&diag),
        "当前 API 代理地址为空，已跟随全局代理：http://redacted:redacted@g:1/。"
    );
    assert_eq!(gateway_user_visible_error_message(429, "slow down", Some(&diag)), "slow down");
    let shown = gateway_user_visible_error_message(502, "connect refused", Some(&diag));
    assert!(shown.starts_with("Codex API 服务连接上游失败。"));
    assert!(shown.contains(" 当前 API 代理地址为空，已跟随全局代理"));
    assert!(shown.ends_with("原始错误：connect refused"));
    let body = gateway_error_body(401, "bad key", None);
    assert_eq!(
        text(&body),
        r#"{"error":{"code":"unauthorized","message":"bad key","status":401,"type":"codex_local_access_error"}}"#
    );
    let with_proxy = gateway_error_body(429, "limit", Some(&UpstreamProxyDiagnostics { proxy_source: UpstreamProxySource::SystemAuto, proxy_url: None }));
    assert_eq!(
        text(&with_proxy),
        r#"{"error":{"code":"rate_limited","message":"limit","status":429,"type":"codex_local_access_error","upstreamProxy":{"proxyUrl":null,"source":"system_auto"}}}"#
    );
}
