use cockpit_core::http::CodexLocalAccessRequestKind;
use cockpit_core::stats::{
    apply_usage_event_to_window, apply_usage_stats, empty_stats_window, upsert_account_usage_stats,
    upsert_api_key_usage_stats, upsert_model_usage_stats, CodexLocalAccessAccountStats,
    CodexLocalAccessUsageEvent, CodexLocalAccessUsageStats,
};
use cockpit_core::usage::UsageCapture;

fn usage(input: u64, output: u64) -> UsageCapture {
    UsageCapture {
        input_tokens: input,
        output_tokens: output,
        total_tokens: input + output,
        cached_tokens: 1,
        reasoning_tokens: 2,
    }
}

#[test]
fn counters_add_up_per_request() {
    let mut stats = CodexLocalAccessUsageStats::default();
    apply_usage_stats(&mut stats, CodexLocalAccessRequestKind::Text, true, None, 40, Some(&usage(3, 4)));
    apply_usage_stats(
        &mut stats,
        CodexLocalAccessRequestKind::ImageGeneration,
        false,
        Some(" image_generation_not_enabled "),
        60,
        None,
    );
    apply_usage_stats(&mut stats, CodexLocalAccessRequestKind::ImageEdit, false, Some("other"), 0, None);
    apply_usage_stats(&mut stats, CodexLocalAccessRequestKind::Other, true, None, 0, None);
    assert_eq!(stats.request_count, 4);
    assert_eq!(stats.success_count + stats.failure_count, stats.request_count);
    assert_eq!(stats.failure_count, 2);
    assert_eq!(stats.total_latency_ms, 100);
    assert_eq!(stats.text_request_count, 1);
    assert_eq!(stats.image_request_count, 2);
    assert_eq!(stats.image_generation_request_count, 1);
    assert_eq!(stats.image_edit_request_count, 1);
    assert_eq!(stats.image_generation_capability_failure_count, 1);
    assert_eq!(stats.input_tokens, 3);
    assert_eq!(stats.total_tokens, 7);

    let mut full = CodexLocalAccessUsageStats::default();
    full.total_latency_ms = u64::MAX - 1;
    apply_usage_stats(&mut full, CodexLocalAccessRequestKind::Text, true, None, 10, None);
    assert_eq!(full.total_latency_ms, u64::MAX);
}

#[test]
fn entries_are_found_by_trimmed_key_or_added() {
    let mut accounts: Vec<CodexLocalAccessAccountStats> = Vec::new();
    upsert_account_usage_stats(&mut accounts, Some(" a1 "), Some(" a@x "), CodexLocalAccessRequestKind::Text, true, None, 5, None, 10);
    upsert_account_usage_stats(&mut accounts, Some("a1"), Some("  "), CodexLocalAccessRequestKind::Text, false, None, 5, None, 20);
    upsert_account_usage_stats(&mut accounts, Some("   "), Some("x"), CodexLocalAccessRequestKind::Text, true, None, 5, None, 30);
    assert_eq!(accounts.len(), 1);
    assert_eq!(accounts[0].account_id, "a1");
    assert_eq!(accounts[0].email, "a@x");
    assert_eq!(accounts[0].updated_at, 20);
    assert_eq!(accounts[0].usage.request_count, 2);

    let mut keys = Vec::new();
    upsert_api_key_usage_stats(&mut keys, Some("k"), Some("first"), CodexLocalAccessRequestKind::Text, true, None, 1, None, 1);
    upsert_api_key_usage_stats(&mut keys, Some("k"), Some("second"), CodexLocalAccessRequestKind::Text, true, None, 1, None, 2);
    assert_eq!(keys[0].label, "second");
    let mut models = Vec::new();
    upsert_model_usage_stats(&mut models, Some("gpt"), CodexLocalAccessRequestKind::Text, true, None, 1, None, 1);
    upsert_model_usage_stats(&mut models, Some("other"), CodexLocalAccessRequestKind::Text, true, None, 1, None, 1);
    assert_eq!(models.len(), 2);
}

#[test]
fn events_count_in_windows() {
    let mut window = empty_stats_window(100, 50);
    let event = CodexLocalAccessUsageEvent {
        timestamp: 120,
        account_id: "a".to_string(),
        email: "a@x".to_string(),
        api_key_id: "k".to_string(),
        api_key_label: "Key".to_string(),
        model_id: "gpt-5.4".to_string(),
        request_kind: CodexLocalAccessRequestKind::Text,
        success: true,
        error_category: String::new(),
        latency_ms: 7,
        input_tokens: 1,
        output_tokens: 2,
        total_tokens: 3,
        cached_tokens: 0,
        reasoning_tokens: 0,
    };
    apply_usage_event_to_window(&mut window, &event);
    apply_usage_event_to_window(&mut window, &event);
    assert_eq!(window.since, 100);
    assert_eq!(window.updated_at, 120);
    assert_eq!(window.totals.request_count, 2);
    assert_eq!(window.totals.total_tokens, 6);
    assert_eq!(window.accounts.len(), 1);
    assert_eq!(window.models[0].usage.total_latency_ms, 14);
    assert_eq!(window.api_keys[0].label, "Key");
}
