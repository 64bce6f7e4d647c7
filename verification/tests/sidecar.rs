use cockpit_core::account::{CodexAccount, CodexApiProviderMode, CodexTokens};
use cockpit_core::collection::{
    CodexLocalAccessCollection, CodexLocalAccessImageGenerationMode, CodexLocalAccessScope,
};
use cockpit_core::json::JsonValue;
use cockpit_core::models::CodexLocalAccessModelAlias;
use cockpit_core::routing::CodexLocalAccessRoutingStrategy;
use cockpit_core::sidecar::{
    build_sidecar_launch_files, render_sidecar_launch_files, sidecar_auth_file_name,
    sidecar_auth_file_name_with, sidecar_duration_ms, sidecar_routing_strategy_value,
};
use serde_json::Value;

fn collection(accounts: &[&str]) -> CodexLocalAccessCollection {
    CodexLocalAccessCollection {
        enabled: true,
        port: 1455,
        api_key: " legacy-key ".to_string(),
        api_keys: Vec::new(),
        access_scope: CodexLocalAccessScope::Lan,
        image_generation_mode: CodexLocalAccessImageGenerationMode::ImagesOnly,
        upstream_proxy_url: None,
        routing_strategy: CodexLocalAccessRoutingStrategy::PlanLowFirst,
        custom_routing_rules: Vec::new(),
        model_aliases: vec![CodexLocalAccessModelAlias {
            source_model: "gpt-5.4".to_string(),
            alias: "fast".to_string(),
            fork: true,
        }],
        excluded_models: vec!["gpt-4".to_string()],
        session_affinity: true,
        session_affinity_ttl_ms: 0,
        max_retry_credentials: 3,
        max_retry_interval_ms: 2_500,
        disable_cooling: false,
        restrict_free_accounts: false,
        bound_oauth_account_id: None,
        account_ids: accounts.iter().map(|s| s.to_string()).collect(),
        created_at: 1,
        updated_at: 2,
    }
}

fn texts(files: &cockpit_core::sidecar::SidecarLaunchFiles) -> (Value, Value, Vec<(String, Value)>) {
    let (config, manifest, auths) = render_sidecar_launch_files(files);
    (
        serde_json::from_str(&config).unwrap(),
        serde_json::from_str(&manifest).unwrap(),
        auths.into_iter().map(|(n, t)| (n, serde_json::from_str(&t).unwrap())).collect(),
    )
}

#[test]
fn small_sidecar_values() {
    assert_eq!(sidecar_duration_ms(0), "1ms");
    assert_eq!(sidecar_duration_ms(3_600_000), "3600000ms");
    assert_eq!(sidecar_routing_strategy_value(CodexLocalAccessRoutingStrategy::ExpirySoonFirst), "expiry_soon_first");
    assert_eq!(sidecar_auth_file_name_with(" acc/1 x ", "u"), "acc_1_x.json");
    assert_eq!(sidecar_auth_file_name_with("///", "fallback"), "fallback.json");
    let random = sidecar_auth_file_name("???");
    assert_eq!(random.len(), 36 + 5);
    assert!(random.ends_with(".json"));
    assert_eq!(sidecar_auth_file_name("abc"), "abc.json");
}

#[test]
fn launch_files_hold_accounts_keys_and_settings() {
    let c = collection(&["oauth-1", "api-1"]);
    let oauth = CodexAccount::new(
        "oauth-1".to_string(),
        "a@example.com".to_string(),
        CodexTokens {
            id_token: "id".to_string(),
            access_token: "access".to_string(),
            refresh_token: Some("refresh".to_string()),
        },
    );
    let api = CodexAccount::new_api_key(
        "api-1".to_string(),
        "b@example.com".to_string(),
        " sk-test ".to_string(),
        CodexApiProviderMode::Custom,
        Some("https://relay.example/v1".to_string()),
        None,
        None,
    );
    let accounts = vec![oauth, api];
    let names = vec!["oauth-1.json".to_string(), "unused.json".to_string()];
    let files = build_sidecar_launch_files(
        &c,
        &accounts,
        &names,
        &vec!["gpt-5.4".to_string()],
        &Some("http://127.0.0.1:7890".to_string()),
        "/tmp/auths",
        1_700_000_000_000,
    );
    assert!(matches!(files.config, JsonValue::Object(_)));
    let (config, manifest, auths) = texts(&files);
    assert_eq!(config["host"], "0.0.0.0");
    assert_eq!(config["port"], 1455);
    assert_eq!(config["auth-dir"], "/tmp/auths");
    assert_eq!(config["disable-image-generation"], "chat");
    assert_eq!(config["request-retry"], 1);
    assert_eq!(config["max-retry-interval"], 3);
    assert_eq!(config["routing"]["session-affinity-ttl"], "1ms");
    assert_eq!(config["proxy-url"], "http://127.0.0.1:7890");
    assert_eq!(config["codex-api-key"][0]["api-key"], "sk-test");
    assert_eq!(config["codex-api-key"][0]["base-url"], "https://relay.example/v1");
    assert_eq!(config["oauth-excluded-models"]["codex"][0], "gpt-4");
    assert_eq!(config["oauth-model-alias"]["codex"][0]["alias"], "fast");
    assert_eq!(config["codex-header-defaults"]["beta-features"], "responses_websockets=2026-02-06");
    assert_eq!(manifest["apiKeys"][0]["id"], "legacy");
    assert_eq!(manifest["apiKeys"][0]["key"], "legacy-key");
    assert_eq!(manifest["accounts"][0]["authId"], "oauth-1.json");
    assert_eq!(manifest["accounts"][1]["authId"], Value::Null);
    assert_eq!(manifest["accounts"][1]["upstreamApiKey"], " sk-test ");
    assert_eq!(manifest["modelIds"][0], "gpt-5.4");
    assert_eq!(manifest["modelAliases"][0]["sourceModel"], "gpt-5.4");
    assert_eq!(manifest["routingStrategy"], "plan_low_first");
    assert_eq!(auths.len(), 1);
    assert_eq!(auths[0].0, "oauth-1.json");
    assert_eq!(auths[0].1["type"], "codex");
    assert_eq!(auths[0].1["account_id"], "oauth-1");
    assert_eq!(auths[0].1["refresh_token"], "refresh");
    assert_eq!(auths[0].1["last_refresh"], "1700000000000");
    assert_eq!(auths[0].1["proxy_url"], "http://127.0.0.1:7890");
}
