use cockpit_core::collection::{
    CodexLocalAccessCollection, CodexLocalAccessImageGenerationMode, CodexLocalAccessImageGenerationStatus,
    CodexLocalAccessScope,
};
use cockpit_core::http::CodexLocalAccessRequestKind;
use cockpit_core::routing::CodexLocalAccessRoutingStrategy;
use cockpit_core::routing_state::{
    bind_response_affinity, build_account_health_snapshot, build_cooldown_key,
    build_cooldown_unavailable_message, clear_model_cooldown, format_retry_after_duration,
    get_model_cooldown_wait, mark_account_failure, mark_account_success, prune_runtime_routing_state,
    resolve_affinity_account, set_model_cooldown, GatewayRoutingState, ResponseAffinityBinding,
    MAX_RESPONSE_AFFINITY_BINDINGS, RESPONSE_AFFINITY_TTL_MS,
};
use cockpit_core::stats::{CodexLocalAccessAccountStats, CodexLocalAccessUsageStats};

fn empty_state() -> GatewayRoutingState {
    GatewayRoutingState {
        response_affinity: Vec::new(),
        model_cooldowns: Vec::new(),
        account_health: Vec::new(),
    }
}

fn collection(ttl: i64, accounts: &[&str], mode: CodexLocalAccessImageGenerationMode) -> CodexLocalAccessCollection {
    CodexLocalAccessCollection {
        enabled: true,
        port: 1455,
        api_key: "key".to_string(),
        api_keys: Vec::new(),
        access_scope: CodexLocalAccessScope::Localhost,
        image_generation_mode: mode,
        upstream_proxy_url: None,
        routing_strategy: CodexLocalAccessRoutingStrategy::Auto,
        custom_routing_rules: Vec::new(),
        model_aliases: Vec::new(),
        excluded_models: Vec::new(),
        session_affinity: true,
        session_affinity_ttl_ms: ttl,
        max_retry_credentials: 0,
        max_retry_interval_ms: 3_000,
        disable_cooling: false,
        restrict_free_accounts: true,
        bound_oauth_account_id: None,
        account_ids: accounts.iter().map(|s| s.to_string()).collect(),
        created_at: 1,
        updated_at: 2,
    }
}

#[test]
fn cooldown_keys_join_trimmed_account_and_model() {
    assert_eq!(build_cooldown_key(" acct ", " gpt-5 ").as_deref(), Some("acct\u{1f}gpt-5"));
    assert_eq!(build_cooldown_key("acct", "  "), None);
    assert_eq!(build_cooldown_key("", "gpt-5"), None);
}

#[test]
fn a_cooldown_is_reported_until_it_ends() {
    let mut state = empty_state();
    set_model_cooldown(&mut state, None, "a", "gpt-5", 5_000, " 429 ", 1_000);
    assert_eq!(state.model_cooldowns.len(), 1);
    assert_eq!(state.model_cooldowns[0].1.reason, "429");
    assert_eq!(get_model_cooldown_wait(&mut state, None, "a", "gpt-5", 2_000), Some(4_000));
    assert_eq!(get_model_cooldown_wait(&mut state, None, "a", "gpt-4", 2_000), None);
    assert_eq!(get_model_cooldown_wait(&mut state, None, "a", "gpt-5", 6_000), None);
    assert!(state.model_cooldowns.is_empty());
    set_model_cooldown(&mut state, None, "a", "gpt-5", 0, "none", 1_000);
    assert!(state.model_cooldowns.is_empty());
    set_model_cooldown(&mut state, None, "a", "gpt-5", 5_000, "x", 1_000);
    clear_model_cooldown(&mut state, None, "a", "gpt-5", 1_500);
    assert!(state.model_cooldowns.is_empty());
}

#[test]
fn affinity_bindings_expire_and_are_capped() {
    let mut state = empty_state();
    bind_response_affinity(&mut state, None, " resp_1 ", " acct ", 10);
    assert_eq!(resolve_affinity_account(&mut state, None, "resp_1", 20).as_deref(), Some("acct"));
    assert_eq!(resolve_affinity_account(&mut state, None, "resp_1", 10 + RESPONSE_AFFINITY_TTL_MS + 1), None);
    bind_response_affinity(&mut state, None, "", "acct", 10);
    assert!(state.response_affinity.is_empty());

    let short = collection(60_000, &[], CodexLocalAccessImageGenerationMode::Enabled);
    bind_response_affinity(&mut state, Some(&short), "session:abc", "acct", 0);
    bind_response_affinity(&mut state, Some(&short), "resp_2", "acct", 0);
    prune_runtime_routing_state(&mut state, Some(&short), 61_000);
    let keys: Vec<&str> = state.response_affinity.iter().map(|(k, _)| k.as_str()).collect();
    assert_eq!(keys, vec!["resp_2"]);

    let mut many = empty_state();
    for i in 0..(MAX_RESPONSE_AFFINITY_BINDINGS + 2) {
        many.response_affinity.push((
            format!("r{}", i),
            ResponseAffinityBinding { account_id: "a".to_string(), updated_at_ms: 1000 + i as i64 },
        ));
    }
    prune_runtime_routing_state(&mut many, None, 5000);
    assert_eq!(many.response_affinity.len(), MAX_RESPONSE_AFFINITY_BINDINGS);
    assert!(many.response_affinity.iter().all(|(k, _)| k != "r0" && k != "r1"));
}

#[test]
fn account_health_follows_successes_and_failures() {
    let mut state = empty_state();
    mark_account_failure(&mut state, "a", "a@x", Some(403), Some("image_generation_not_enabled"), "  nope ", CodexLocalAccessRequestKind::ImageGeneration, 7);
    let h = &state.account_health[0].1;
    assert_eq!(h.consecutive_failures, 1);
    assert_eq!(h.last_failure_message.as_deref(), Some("nope"));
    assert_eq!(h.image_generation_status, CodexLocalAccessImageGenerationStatus::Unavailable);
    assert_eq!(h.image_generation_checked_at, Some(7));
    mark_account_failure(&mut state, "a", "a@x", None, None, " ", CodexLocalAccessRequestKind::Text, 8);
    assert_eq!(state.account_health[0].1.consecutive_failures, 2);
    assert_eq!(state.account_health[0].1.last_failure_message, None);
    mark_account_success(&mut state, "a", "a@x", CodexLocalAccessRequestKind::ImageEdit, 9);
    let h = &state.account_health[0].1;
    assert_eq!(h.consecutive_failures, 0);
    assert_eq!(h.last_success_at, Some(9));
    assert_eq!(h.last_failure_at, Some(8));
    assert_eq!(h.image_generation_status, CodexLocalAccessImageGenerationStatus::Available);
    assert_eq!(state.account_health.len(), 1);
}

#[test]
fn health_snapshot_reports_each_collection_account() {
    let mut state = empty_state();
    for t in [1, 2, 3] {
        mark_account_failure(&mut state, "a", " ", Some(500), Some("upstream"), "boom", CodexLocalAccessRequestKind::Text, t);
    }
    set_model_cooldown(&mut state, None, "b", "gpt-5", 10_000, "limit", 100);
    let c = collection(3_600_000, &["a", "b", "c"], CodexLocalAccessImageGenerationMode::Disabled);
    let stats_accounts = vec![CodexLocalAccessAccountStats {
        account_id: "a".to_string(),
        email: "a@stats".to_string(),
        usage: CodexLocalAccessUsageStats::default(),
        updated_at: 1,
    }];
    let report = build_account_health_snapshot(&state, Some(&c), &stats_accounts, 4_100);
    assert_eq!(report.len(), 3);
    assert_eq!(report[0].email, "a@stats");
    assert!(!report[0].available);
    assert_eq!(report[0].consecutive_failures, 3);
    assert!(!report[1].available);
    assert_eq!(report[1].cooldowns.len(), 1);
    assert_eq!(report[1].cooldowns[0].remaining_ms, 6_000);
    assert!(report[2].available);
    assert_eq!(report[2].image_generation_status, CodexLocalAccessImageGenerationStatus::Disabled);
    assert!(build_account_health_snapshot(&state, None, &stats_accounts, 0).is_empty());
}

#[test]
fn cooldown_messages_name_the_wait() {
    assert_eq!(format_retry_after_duration(0), "1 秒");
    assert_eq!(format_retry_after_duration(12_900), "12 秒");
    assert_eq!(build_cooldown_unavailable_message(" ", 3_000), "当前 API 服务账号均在冷却中，请 3 秒 后重试");
    assert_eq!(build_cooldown_unavailable_message("gpt-5", 3_000), "模型 gpt-5 的可用账号均在冷却中，请 3 秒 后重试");
}
