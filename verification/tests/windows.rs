use cockpit_core::http::CodexLocalAccessRequestKind;
use cockpit_core::stats::{
    empty_stats_window, CodexLocalAccessAccountStats, CodexLocalAccessModelStats,
    CodexLocalAccessUsageEvent, CodexLocalAccessUsageStats,
};
use cockpit_core::usage::UsageCapture;
use cockpit_core::windows::{
    record_request_stats_at, recent_usage_events,
    empty_stats_snapshot, empty_stats_snapshot_at, normalize_stats_at, recompute_time_windows,
    sort_usage_accounts, sort_usage_models, trim_recent_events, CodexLocalAccessStats,
    DAY_WINDOW_MS, MONTH_WINDOW_MS, WEEK_WINDOW_MS,
};

fn event(timestamp: i64, account: &str, model: &str, success: bool) -> CodexLocalAccessUsageEvent {
    CodexLocalAccessUsageEvent {
        timestamp,
        account_id: account.to_string(),
        email: format!("{}@x", account),
        api_key_id: "k".to_string(),
        api_key_label: "Key".to_string(),
        model_id: model.to_string(),
        request_kind: CodexLocalAccessRequestKind::Text,
        success,
        error_category: String::new(),
        latency_ms: 10,
        input_tokens: 1,
        output_tokens: 2,
        total_tokens: 3,
        cached_tokens: 0,
        reasoning_tokens: 0,
    }
}

fn account(id: &str, requests: u64, updated_at: i64) -> CodexLocalAccessAccountStats {
    let mut usage = CodexLocalAccessUsageStats::default();
    usage.request_count = requests;
    CodexLocalAccessAccountStats {
        account_id: id.to_string(),
        email: String::new(),
        usage,
        updated_at,
    }
}

fn stats_with(events: Vec<CodexLocalAccessUsageEvent>, since: i64, updated_at: i64) -> CodexLocalAccessStats {
    CodexLocalAccessStats {
        since,
        updated_at,
        totals: CodexLocalAccessUsageStats::default(),
        accounts: vec![account("b", 1, 5), account("a", 3, 1)],
        models: Vec::new(),
        api_keys: Vec::new(),
        daily: empty_stats_window(0, 0),
        weekly: empty_stats_window(0, 0),
        monthly: empty_stats_window(0, 0),
        events,
    }
}

#[test]
fn usage_totals_list_busiest_then_latest_then_by_id() {
    let mut accounts = vec![
        account("c", 2, 10),
        account("a", 5, 1),
        account("b", 2, 10),
        account("d", 2, 30),
        account("é", 2, 10),
    ];
    sort_usage_accounts(&mut accounts);
    let order: Vec<&str> = accounts.iter().map(|a| a.account_id.as_str()).collect();
    assert_eq!(order, vec!["a", "d", "b", "c", "é"]);

    let mut models = vec![
        CodexLocalAccessModelStats { model_id: "m2".to_string(), usage: CodexLocalAccessUsageStats::default(), updated_at: 1 },
        CodexLocalAccessModelStats { model_id: "m1".to_string(), usage: CodexLocalAccessUsageStats::default(), updated_at: 1 },
    ];
    sort_usage_models(&mut models);
    assert_eq!(models[0].model_id, "m1");
}

#[test]
fn recent_events_keep_the_month_in_time_order() {
    let mut events = vec![event(50, "a", "m", true), event(0, "a", "m", true), event(10, "b", "m", true), event(30, "c", "m", true), event(-4, "d", "m", true)];
    trim_recent_events(&mut events, 20);
    let times: Vec<i64> = events.iter().map(|e| e.timestamp).collect();
    assert_eq!(times, vec![30, 50]);
}

#[test]
fn windows_count_the_events_they_cover() {
    let now = 100 * DAY_WINDOW_MS;
    let events = vec![
        event(now - 2 * 60 * 1000, "a", "m1", true),
        event(now - 3 * DAY_WINDOW_MS, "b", "m2", false),
        event(now - 20 * DAY_WINDOW_MS, "a", "m1", true),
        event(now - 40 * DAY_WINDOW_MS, "c", "m3", true),
    ];
    let mut stats = stats_with(events, 1, now - 1000);
    recompute_time_windows(&mut stats, now);
    assert_eq!(stats.events.len(), 3);
    assert_eq!(stats.events[0].timestamp, now - 20 * DAY_WINDOW_MS);
    assert_eq!(stats.daily.since, now - DAY_WINDOW_MS);
    assert_eq!(stats.daily.updated_at, now - 1000);
    assert_eq!(stats.daily.totals.request_count, 1);
    assert_eq!(stats.weekly.since, now - WEEK_WINDOW_MS);
    assert_eq!(stats.weekly.totals.request_count, 2);
    assert_eq!(stats.weekly.totals.failure_count, 1);
    assert_eq!(stats.monthly.since, now - MONTH_WINDOW_MS);
    assert_eq!(stats.monthly.totals.request_count, 3);
    assert_eq!(stats.monthly.accounts[0].account_id, "a");
    assert_eq!(stats.monthly.accounts[0].usage.request_count, 2);
    assert_eq!(stats.monthly.models.len(), 2);
    assert_eq!(stats.accounts[0].account_id, "b");
}

#[test]
fn normalizing_fills_missing_times_and_orders_lists() {
    let now = 40 * DAY_WINDOW_MS;
    let mut stats = stats_with(vec![event(now - 1000, "a", "m", true)], 0, 0);
    normalize_stats_at(&mut stats, now);
    assert_eq!(stats.since, now);
    assert_eq!(stats.updated_at, now);
    assert_eq!(stats.accounts[0].account_id, "a");
    assert_eq!(stats.daily.totals.request_count, 1);
    assert_eq!(stats.daily.updated_at, now);
}

#[test]
fn empty_snapshot_has_empty_windows_ending_now() {
    let stats = empty_stats_snapshot_at(5 * DAY_WINDOW_MS);
    assert_eq!(stats.since, 5 * DAY_WINDOW_MS);
    assert_eq!(stats.daily.since, 4 * DAY_WINDOW_MS);
    assert_eq!(stats.weekly.since, -2 * DAY_WINDOW_MS);
    assert_eq!(stats.monthly.since, -25 * DAY_WINDOW_MS);
    assert_eq!(stats.monthly.updated_at, 5 * DAY_WINDOW_MS);
    assert!(stats.events.is_empty() && stats.accounts.is_empty());
    let live = empty_stats_snapshot();
    assert_eq!(live.since, live.updated_at);
    assert_eq!(live.daily.since, live.since - DAY_WINDOW_MS);
    let floor = empty_stats_snapshot_at(i64::MIN + 5);
    assert_eq!(floor.daily.since, i64::MIN);
}

#[test]
fn recording_a_request_counts_it_everywhere() {
    let now = 10 * DAY_WINDOW_MS;
    let mut stats = empty_stats_snapshot_at(now - 5);
    let usage = UsageCapture { input_tokens: 3, output_tokens: 4, total_tokens: 7, cached_tokens: 1, reasoning_tokens: 0 };
    let event = record_request_stats_at(
        &mut stats, now, now + 1, Some(" acct "), Some("a@x"), Some("k1"), Some("Key"), Some("gpt-5"),
        CodexLocalAccessRequestKind::Text, true, None, 42, Some(usage),
    );
    assert_eq!(event.account_id, "acct");
    assert_eq!(event.timestamp, now);
    assert_eq!(event.total_tokens, 7);
    assert_eq!(stats.totals.request_count, 1);
    assert_eq!(stats.updated_at, now);
    assert_eq!(stats.accounts[0].account_id, "acct");
    assert_eq!(stats.daily.totals.request_count, 1);
    assert_eq!(stats.events.len(), 1);
    let recent = recent_usage_events(&stats.events);
    assert_eq!(recent.len(), 1);
    let many: Vec<CodexLocalAccessUsageEvent> = (0..150).map(|i| event_at(i)).collect();
    let recent = recent_usage_events(&many);
    assert_eq!(recent.len(), 100);
    assert_eq!(recent[0].timestamp, 149);
    assert_eq!(recent[99].timestamp, 50);
}

fn event_at(t: i64) -> CodexLocalAccessUsageEvent {
    event(t, "a", "m", true)
}
