use cockpit_core::http::CodexLocalAccessRequestKind;
use cockpit_core::stats::CodexLocalAccessUsageEvent;
use cockpit_core::usage_log::{
    bool_to_db_value, build_usage_log_query_at, empty_usage_event_page, local_access_log_event_key,
    normalize_log_filter, parse_sidecar_request_kind, push_like_filter, request_kind_from_db_value,
    request_kind_is_image, request_kind_to_db_value, stats_range_since, stats_range_since_at,
    usage_i64_to_u64, usage_log_paging, SqlParam,
};
use cockpit_core::windows::{DAY_WINDOW_MS, WEEK_WINDOW_MS};

fn sample_event() -> CodexLocalAccessUsageEvent {
    CodexLocalAccessUsageEvent {
        timestamp: 1_700_000_000_123,
        account_id: "acct".to_string(),
        email: "a@x.io".to_string(),
        api_key_id: "key_1".to_string(),
        api_key_label: "默认".to_string(),
        model_id: "gpt-5.4".to_string(),
        request_kind: CodexLocalAccessRequestKind::ImageEdit,
        success: false,
        error_category: "rate_limited".to_string(),
        latency_ms: 812,
        input_tokens: 10,
        output_tokens: 20,
        total_tokens: 30,
        cached_tokens: 4,
        reasoning_tokens: 5,
    }
}

fn reference_key(texts: &[&str]) -> String {
    let mut hash = 0xcbf29ce484222325u64;
    for text in texts {
        for byte in text.as_bytes() {
            hash ^= *byte as u64;
            hash = hash.wrapping_mul(0x100000001b3);
        }
        hash ^= 0xff;
        hash = hash.wrapping_mul(0x100000001b3);
    }
    format!("{hash:016x}")
}

fn texts(params: &[SqlParam]) -> Vec<String> {
    params
        .iter()
        .map(|p| match p {
            SqlParam::Integer(i) => format!("#{}", i),
            SqlParam::Text(t) => t.clone(),
        })
        .collect()
}

#[test]
fn request_kinds_are_stored_as_text() {
    for kind in [
        CodexLocalAccessRequestKind::Text,
        CodexLocalAccessRequestKind::ImageGeneration,
        CodexLocalAccessRequestKind::ImageEdit,
        CodexLocalAccessRequestKind::Other,
    ] {
        assert_eq!(request_kind_from_db_value(request_kind_to_db_value(kind)), kind);
    }
    assert_eq!(request_kind_from_db_value(" image_edit "), CodexLocalAccessRequestKind::ImageEdit);
    assert_eq!(parse_sidecar_request_kind("video"), CodexLocalAccessRequestKind::Other);
    assert_eq!(bool_to_db_value(true), 1);
    assert_eq!(bool_to_db_value(false), 0);
    assert!(request_kind_is_image(CodexLocalAccessRequestKind::ImageGeneration));
    assert!(!request_kind_is_image(CodexLocalAccessRequestKind::Text));
    assert_eq!(usage_i64_to_u64(-3), 0);
    assert_eq!(usage_i64_to_u64(42), 42);
}

#[test]
fn event_key_is_the_fnv_hash_of_its_fields() {
    let key = local_access_log_event_key(&sample_event());
    let expected = reference_key(&[
        "1700000000123", "acct", "a@x.io", "key_1", "默认", "gpt-5.4", "image_edit", "0",
        "rate_limited", "812", "10", "20", "30", "4", "5",
    ]);
    assert_eq!(key, expected);
    assert_eq!(key.len(), 16);
    let mut other = sample_event();
    other.success = true;
    assert_ne!(local_access_log_event_key(&other), key);
}

#[test]
fn stats_ranges_name_a_window_start() {
    let now = 50 * DAY_WINDOW_MS;
    assert_eq!(stats_range_since_at(Some(" daily "), now), Some(49 * DAY_WINDOW_MS));
    assert_eq!(stats_range_since_at(Some("weekly"), now), Some(now - WEEK_WINDOW_MS));
    assert_eq!(stats_range_since_at(Some("monthly"), now), Some(20 * DAY_WINDOW_MS));
    assert_eq!(stats_range_since_at(Some("yearly"), now), None);
    assert_eq!(stats_range_since_at(None, now), None);
    assert!(stats_range_since(Some("daily")).is_some());
    assert_eq!(normalize_log_filter(Some("  gpt ".to_string())).as_deref(), Some("gpt"));
    assert_eq!(normalize_log_filter(Some("   ".to_string())), None);
}

#[test]
fn like_filters_bind_a_pattern() {
    let mut clauses = Vec::new();
    let mut params = Vec::new();
    push_like_filter(&mut clauses, &mut params, "model_id LIKE ?", Some(" 5.4 ".to_string()));
    push_like_filter(&mut clauses, &mut params, "email LIKE ?", None);
    assert_eq!(clauses, vec!["model_id LIKE ?".to_string()]);
    assert_eq!(texts(&params), vec!["%5.4%".to_string()]);
}

#[test]
fn log_query_lists_conditions_in_order() {
    let now = 10 * DAY_WINDOW_MS;
    let (where_sql, params) = build_usage_log_query_at(
        now,
        Some("daily"),
        Some("gpt".to_string()),
        Some("a@x".to_string()),
        None,
        Some(CodexLocalAccessRequestKind::Text),
        Some(false),
        Some(" ".to_string()),
    );
    assert_eq!(
        where_sql,
        " WHERE timestamp >= ? AND model_id LIKE ? AND (account_id LIKE ? OR email LIKE ?) AND request_kind = ? AND success = ?"
    );
    assert_eq!(
        texts(&params),
        vec![
            format!("#{}", 9 * DAY_WINDOW_MS),
            "%gpt%".to_string(),
            "%a@x%".to_string(),
            "%a@x%".to_string(),
            "text".to_string(),
            "#0".to_string(),
        ]
    );
    let (empty_sql, empty_params) = build_usage_log_query_at(now, None, None, None, None, None, None, None);
    assert_eq!(empty_sql, "");
    assert!(empty_params.is_empty());
}

#[test]
fn log_pages_are_clamped() {
    assert_eq!(usage_log_paging(0, 0, 0), (1, 1, 1, 0));
    assert_eq!(usage_log_paging(45, 3, 20), (20, 3, 3, 40));
    assert_eq!(usage_log_paging(45, 9, 20), (20, 3, 3, 40));
    assert_eq!(usage_log_paging(1000, 2, 500), (200, 5, 2, 200));
    let page = empty_usage_event_page(0, 999);
    assert_eq!((page.page, page.page_size, page.total_pages, page.total), (1, 200, 1, 0));
    assert!(page.events.is_empty());
}
