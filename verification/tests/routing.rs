use cockpit_core::account::{CodexAccount, CodexQuota, CodexTokens};
use cockpit_core::routing::{
    apply_routing_strategy, build_ordered_account_ids, compare_routing_candidates,
    normalize_custom_routing_rules, normalize_plan_key, normalize_auth_file_plan_type,
    pin_account_to_front, resolve_plan_rank, resolve_remaining_quota,
    resolve_subscription_expiry_ms, CodexLocalAccessCustomRoutingRule,
    CodexLocalAccessRoutingStrategy, RoutingCandidate,
};

fn test_account_with_plan(plan_type: &str) -> CodexAccount {
    let mut account = CodexAccount::new(
        format!("acc-{}", plan_type),
        format!("{}@example.com", plan_type),
        CodexTokens {
            id_token: String::new(),
            access_token: "access-token".to_string(),
            refresh_token: None,
        },
    );
    account.plan_type = Some(plan_type.to_string());
    account
}

fn rule(account_id: &str, priority: i32, weight: u32) -> CodexLocalAccessCustomRoutingRule {
    CodexLocalAccessCustomRoutingRule {
        account_id: account_id.to_string(),
        priority,
        weight,
    }
}

#[test]
fn prefers_affinity_account_before_round_robin_order() {
    let ordered = build_ordered_account_ids(
        &["acc-a".to_string(), "acc-b".to_string(), "acc-c".to_string()].to_vec(),
        1,
        Some("acc-c"),
    );

    assert_eq!(ordered, vec!["acc-c", "acc-b", "acc-a"]);
}

#[test]
fn round_robin_without_affinity_starts_at_cursor_and_wraps() {
    let ids = vec!["a".to_string(), "b".to_string(), "c".to_string()];
    assert_eq!(build_ordered_account_ids(&ids, 2, None), vec!["c", "a", "b"]);
    assert_eq!(build_ordered_account_ids(&ids, 7, Some("missing")), vec!["b", "c", "a"]);
    assert!(build_ordered_account_ids(&Vec::new(), 3, Some("a")).is_empty());
    let dup = vec!["a".to_string(), "a".to_string(), "b".to_string()];
    assert_eq!(build_ordered_account_ids(&dup, 0, None), vec!["a", "b"]);
}

#[test]
fn codex_plan_rank_matches_current_rate_card() {
    let mut promax = test_account_with_plan("pro");
    promax.auth_file_plan_type = Some("promax".to_string());
    let mut prolite = test_account_with_plan("pro");
    prolite.auth_file_plan_type = Some("prolite".to_string());

    assert_eq!(resolve_plan_rank(&test_account_with_plan("free")), Some(100));
    assert_eq!(resolve_plan_rank(&test_account_with_plan("go")), Some(200));
    assert_eq!(resolve_plan_rank(&test_account_with_plan("plus")), Some(300));
    assert_eq!(resolve_plan_rank(&test_account_with_plan("team")), Some(300));
    assert_eq!(resolve_plan_rank(&test_account_with_plan("business")), Some(300));
    assert_eq!(resolve_plan_rank(&test_account_with_plan("pro")), Some(500));
    assert_eq!(resolve_plan_rank(&prolite), Some(500));
    assert_eq!(resolve_plan_rank(&promax), Some(600));
    assert_eq!(resolve_plan_rank(&test_account_with_plan("enterprise")), Some(700));
    assert_eq!(resolve_plan_rank(&test_account_with_plan("edu")), Some(700));
    assert_eq!(resolve_plan_rank(&test_account_with_plan("health")), Some(700));
    assert_eq!(resolve_plan_rank(&test_account_with_plan("gov")), Some(700));
    assert_eq!(resolve_plan_rank(&test_account_with_plan("teachers")), Some(700));
}

#[test]
fn plan_keys_and_pro_tiers_normalize() {
    assert_eq!(normalize_plan_key(None), "free");
    assert_eq!(normalize_plan_key(Some("  ")), "free");
    assert_eq!(normalize_plan_key(Some(" ChatGPT Plus ")), "plus");
    assert_eq!(normalize_plan_key(Some("Enterprise-Team")), "enterprise");
    assert_eq!(normalize_plan_key(Some("Mystery")), "mystery");
    assert_eq!(normalize_auth_file_plan_type(Some(" Pro_Max ")), Some("promax"));
    assert_eq!(normalize_auth_file_plan_type(Some("pro lite")), Some("prolite"));
    assert_eq!(normalize_auth_file_plan_type(Some("pro")), None);
    let mut unknown = test_account_with_plan("mystery");
    unknown.auth_file_plan_type = None;
    assert_eq!(resolve_plan_rank(&unknown), None);
}

#[test]
fn remaining_quota_takes_lowest_present_window() {
    let mut account = test_account_with_plan("plus");
    assert_eq!(resolve_remaining_quota(&account), None);
    account.quota = Some(CodexQuota {
        hourly_percentage: 140,
        hourly_reset_time: None,
        hourly_window_minutes: None,
        hourly_window_present: None,
        weekly_percentage: 35,
        weekly_reset_time: None,
        weekly_window_minutes: None,
        weekly_window_present: Some(true),
    });
    assert_eq!(resolve_remaining_quota(&account), Some(35));
    account.quota.as_mut().unwrap().weekly_window_present = Some(false);
    assert_eq!(resolve_remaining_quota(&account), Some(100));
    account.quota.as_mut().unwrap().hourly_window_present = Some(false);
    assert_eq!(resolve_remaining_quota(&account), None);
}

#[test]
fn subscription_expiry_accepts_seconds_millis_and_rfc3339() {
    let mut account = test_account_with_plan("plus");
    account.subscription_active_until = Some(" 1700000000 ".to_string());
    assert_eq!(resolve_subscription_expiry_ms(&account), Some(1_700_000_000_000));
    account.subscription_active_until = Some("1700000000123".to_string());
    assert_eq!(resolve_subscription_expiry_ms(&account), Some(1_700_000_000_123));
    account.subscription_active_until = Some("2024-01-01T00:00:00Z".to_string());
    assert_eq!(resolve_subscription_expiry_ms(&account), Some(1_704_067_200_000));
    account.subscription_active_until = Some("soon".to_string());
    assert_eq!(resolve_subscription_expiry_ms(&account), None);
    account.subscription_active_until = Some("99999999999999999999".to_string());
    assert_eq!(resolve_subscription_expiry_ms(&account), None);
}

#[test]
fn plan_low_first_places_business_and_team_before_pro() {
    let candidate = |id: &str, plan: i32, quota: i32| RoutingCandidate {
        account_id: id.to_string(),
        plan_rank: Some(plan),
        remaining_quota: Some(quota),
        subscription_expiry_ms: None,
    };
    let mut candidates = vec![
        candidate("acc-pro", 500, 80),
        candidate("acc-plus", 300, 40),
        candidate("acc-team", 300, 70),
        candidate("acc-business", 300, 60),
        candidate("acc-promax", 600, 90),
        candidate("acc-edu", 700, 100),
    ];
    let original_index: Vec<String> = candidates.iter().map(|c| c.account_id.clone()).collect();

    candidates.sort_by(|left, right| {
        compare_routing_candidates(
            left,
            right,
            CodexLocalAccessRoutingStrategy::PlanLowFirst,
            &original_index,
        )
    });

    let ordered = candidates
        .into_iter()
        .map(|candidate| candidate.account_id)
        .collect::<Vec<_>>();

    assert_eq!(
        ordered,
        vec!["acc-team", "acc-business", "acc-plus", "acc-pro", "acc-promax", "acc-edu"]
    );
}

#[test]
fn strategy_sorts_loaded_accounts_and_keeps_unknown_last() {
    let ids = vec!["acc-free".to_string(), "acc-missing".to_string(), "acc-pro".to_string()];
    let accounts = vec![
        Some(test_account_with_plan("free")),
        None,
        Some(test_account_with_plan("pro")),
    ];
    let ordered = apply_routing_strategy(
        &ids,
        CodexLocalAccessRoutingStrategy::PlanHighFirst,
        &Vec::new(),
        0,
        &accounts,
    );
    assert_eq!(ordered, vec!["acc-pro", "acc-free", "acc-missing"]);
    let ordered = apply_routing_strategy(
        &ids,
        CodexLocalAccessRoutingStrategy::PlanLowFirst,
        &Vec::new(),
        0,
        &accounts,
    );
    assert_eq!(ordered, vec!["acc-free", "acc-pro", "acc-missing"]);
}

#[test]
fn custom_routing_prefers_higher_priority_accounts() {
    let account_ids = vec![
        "acc-low".to_string(),
        "acc-high-a".to_string(),
        "acc-high-b".to_string(),
    ];
    let rules = vec![
        rule("acc-low", 10, 1),
        rule("acc-high-a", 40, 1),
        rule("acc-high-b", 40, 1),
    ];

    let ordered = apply_routing_strategy(
        &account_ids,
        CodexLocalAccessRoutingStrategy::Custom,
        &rules,
        0,
        &Vec::new(),
    );

    assert_eq!(ordered, vec!["acc-high-a", "acc-high-b", "acc-low"]);
}

#[test]
fn custom_routing_uses_weight_for_same_priority_first_pick() {
    let account_ids = vec!["acc-heavy".to_string(), "acc-light".to_string()];
    let rules = vec![rule("acc-heavy", 20, 3), rule("acc-light", 20, 1)];

    let first_picks = (0..8)
        .map(|start| {
            apply_routing_strategy(
                &account_ids,
                CodexLocalAccessRoutingStrategy::Custom,
                &rules,
                start,
                &Vec::new(),
            )[0]
            .clone()
        })
        .collect::<Vec<_>>();

    assert_eq!(
        first_picks,
        vec![
            "acc-heavy",
            "acc-heavy",
            "acc-heavy",
            "acc-light",
            "acc-heavy",
            "acc-heavy",
            "acc-heavy",
            "acc-light",
        ]
    );
}

#[test]
fn custom_routing_rules_are_normalized_to_collection_accounts() {
    let account_ids = vec!["acc-a".to_string(), "acc-b".to_string()];
    let rules = vec![
        rule(" acc-a ", 120, 0),
        rule("acc-a", 20, 10),
        rule("acc-removed", 30, 5),
        rule("acc-b", -5, 500),
    ];

    let normalized = normalize_custom_routing_rules(rules, &account_ids);

    assert_eq!(normalized, vec![rule("acc-a", 100, 1), rule("acc-b", 0, 100)]);
}

#[test]
fn pin_moves_trimmed_preferred_account_to_front() {
    let ids = vec!["a".to_string(), "b".to_string(), "c".to_string(), "b".to_string()];
    assert_eq!(pin_account_to_front(ids.clone(), Some(" b ")), vec!["b", "a", "c"]);
    assert_eq!(pin_account_to_front(ids.clone(), Some("z")), vec!["a", "b", "c", "b"]);
    assert_eq!(pin_account_to_front(ids.clone(), Some("  ")), ids);
    assert_eq!(pin_account_to_front(ids.clone(), None), ids);
}
