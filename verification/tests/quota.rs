use cockpit_core::account::{CodexAccount, CodexTokens};
use cockpit_core::quota::{
    clear_subscription_retry_pending, extract_error_code_from_message, mark_subscription_retry_pending,
    normalize_optional_ref, normalize_remaining_percentage, normalize_reset_time,
    normalize_subscription_retry_state, normalize_window_minutes, parse_quota_from_usage,
    parse_subscription_timestamp, should_attempt_subscription_refresh,
    subscription_missing_or_expired, write_quota_error, FetchQuotaResult, RateLimitInfo,
    RefreshQuotaOptions, UsageResponse, WindowInfo,
};

fn window(used: Option<i32>, seconds: Option<i64>, after: Option<i64>, at: Option<i64>) -> WindowInfo {
    WindowInfo {
        used_percent: used,
        limit_window_seconds: seconds,
        reset_after_seconds: after,
        reset_at: at,
    }
}

fn account() -> CodexAccount {
    CodexAccount::new(
        "acc".to_string(),
        "a@example.com".to_string(),
        CodexTokens {
            id_token: String::new(),
            access_token: "t".to_string(),
            refresh_token: None,
        },
    )
}

#[test]
fn windows_normalize_to_remaining_quota() {
    assert_eq!(normalize_remaining_percentage(&window(Some(30), None, None, None)), 70);
    assert_eq!(normalize_remaining_percentage(&window(Some(130), None, None, None)), 0);
    assert_eq!(normalize_remaining_percentage(&window(Some(-5), None, None, None)), 100);
    assert_eq!(normalize_remaining_percentage(&window(None, None, None, None)), 100);
    assert_eq!(normalize_window_minutes(&window(None, Some(18_000), None, None)), Some(300));
    assert_eq!(normalize_window_minutes(&window(None, Some(61), None, None)), Some(2));
    assert_eq!(normalize_window_minutes(&window(None, Some(0), None, None)), None);
    assert_eq!(normalize_reset_time(&window(None, None, Some(60), Some(5)), 1_000), Some(5));
    assert_eq!(normalize_reset_time(&window(None, None, Some(60), None), 1_000), Some(1_060));
    assert_eq!(normalize_reset_time(&window(None, None, Some(-1), None), 1_000), None);
}

#[test]
fn usage_response_becomes_a_quota() {
    let usage = UsageResponse {
        plan_type: Some("plus".to_string()),
        rate_limit: Some(RateLimitInfo {
            allowed: Some(true),
            limit_reached: Some(false),
            primary_window: Some(window(Some(25), Some(18_000), Some(100), None)),
            secondary_window: None,
        }),
        code_review_rate_limit: None,
    };
    let quota = parse_quota_from_usage(&usage, 50).unwrap();
    assert_eq!(quota.hourly_percentage, 75);
    assert_eq!(quota.hourly_reset_time, Some(150));
    assert_eq!(quota.hourly_window_minutes, Some(300));
    assert_eq!(quota.hourly_window_present, Some(true));
    assert_eq!(quota.weekly_percentage, 100);
    assert_eq!(quota.weekly_window_present, Some(false));
    let result = FetchQuotaResult { quota, plan_type: usage.plan_type.clone() };
    assert_eq!(result.plan_type.as_deref(), Some("plus"));
    assert!(!RefreshQuotaOptions::default().force_subscription_refresh);
}

#[test]
fn error_codes_are_read_from_messages() {
    assert_eq!(
        extract_error_code_from_message("API 返回错误 401 [error_code:token_expired] [body_len:10]").as_deref(),
        Some("token_expired")
    );
    assert_eq!(
        extract_error_code_from_message("failed: error_code=usage_limit, retry later").as_deref(),
        Some("usage_limit")
    );
    assert_eq!(extract_error_code_from_message("error_code= ,"), None);
    assert_eq!(extract_error_code_from_message("[error_code:unterminated"), None);
    assert_eq!(extract_error_code_from_message("no code here"), None);

    let mut acc = account();
    write_quota_error(&mut acc, "bad [error_code:x1]".to_string(), 77);
    let info = acc.quota_error.unwrap();
    assert_eq!(info.code.as_deref(), Some("x1"));
    assert_eq!(info.timestamp, 77);
}

#[test]
fn subscription_dates_and_retry_state() {
    assert_eq!(parse_subscription_timestamp(" 1700000000 "), Some(1_700_000_000));
    assert_eq!(parse_subscription_timestamp("1700000000000"), Some(1_700_000_000));
    assert_eq!(parse_subscription_timestamp("2024-01-01T00:00:00Z"), Some(1_704_067_200));
    assert_eq!(parse_subscription_timestamp("soon"), None);
    assert_eq!(parse_subscription_timestamp("   "), None);
    assert!(subscription_missing_or_expired(None, 0));
    assert!(subscription_missing_or_expired(Some("100"), 100));
    assert!(!subscription_missing_or_expired(Some("101"), 100));
    assert_eq!(normalize_optional_ref(Some("  x ")).as_deref(), Some("x"));
    assert_eq!(normalize_optional_ref(Some("  ")), None);

    let mut acc = account();
    assert!(should_attempt_subscription_refresh(&acc, false, 1_000));
    mark_subscription_retry_pending(&mut acc, Some("  boom ".to_string()), 1_000);
    assert_eq!(acc.subscription_query_last_attempt_at, Some(1_000));
    assert_eq!(acc.subscription_query_next_retry_at, Some(2_800));
    assert_eq!(acc.subscription_query_last_error.as_deref(), Some("boom"));
    assert!(!should_attempt_subscription_refresh(&acc, false, 2_799));
    assert!(should_attempt_subscription_refresh(&acc, false, 2_800));
    assert!(should_attempt_subscription_refresh(&acc, true, 0));

    acc.subscription_active_until = Some("5000".to_string());
    assert!(!should_attempt_subscription_refresh(&acc, false, 4_000));
    normalize_subscription_retry_state(&mut acc, 4_000);
    assert_eq!(acc.subscription_query_next_retry_at, None);
    assert_eq!(acc.subscription_query_last_error, None);
    mark_subscription_retry_pending(&mut acc, None, 1);
    clear_subscription_retry_pending(&mut acc);
    assert_eq!(acc.subscription_query_next_retry_at, None);
    assert_eq!(acc.subscription_query_last_attempt_at, Some(1));
}
