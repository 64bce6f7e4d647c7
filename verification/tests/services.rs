use cockpit_core::app_server::{
    app_server_reply, app_server_request_line, build_initialize_params, build_thread_list_params,
    AppServerReply,
};
use cockpit_core::config::{get_user_config_path_with, join_path_exec, migrate_user_config_text};
use cockpit_core::json::{get_member, i64_of, JsonValue};
use cockpit_core::quota::{extract_detail_code_from_body, quota_error_message};
use cockpit_core::usage_log::{usage_log_count_sql, usage_log_list_params, usage_log_list_sql, SqlParam};
use cockpit_core::web_profile::{record_opened_profile, CodexWebProfileRecord};

fn failed_message(reply: AppServerReply) -> Option<String> {
    match reply {
        AppServerReply::Failed(message) => Some(message),
        _ => None,
    }
}

#[test]
fn app_server_replies_are_matched_by_id() {
    assert!(matches!(app_server_reply("not json", 1), AppServerReply::Pending));
    assert!(matches!(app_server_reply(r#"{"id":2,"result":{}}"#, 1), AppServerReply::Pending));
    assert!(matches!(app_server_reply(r#"{"method":"note"}"#, 1), AppServerReply::Pending));
    assert!(matches!(app_server_reply(r#"{"id":1,"result":null}"#, 1), AppServerReply::Done));
    assert_eq!(
        failed_message(app_server_reply(r#"{"id":1,"error":{"code":-32600}}"#, 1)).as_deref(),
        Some("官方 app-server 返回错误 (id=1): {\"code\":-32600}")
    );
    assert_eq!(
        failed_message(app_server_reply(r#"{"id":2}"#, 2)).as_deref(),
        Some("官方 app-server 响应缺少 result (id=2): {\"id\":2}")
    );
}

#[test]
fn app_server_request_lines_carry_method_id_and_params() {
    let init = app_server_request_line("initialize", 1, build_initialize_params("1.2.3"));
    assert_eq!(
        init,
        r#"{"id":1,"method":"initialize","params":{"capabilities":null,"clientInfo":{"name":"cockpit-tools","version":"1.2.3"}}}"#
    );
    let list = app_server_request_line("thread/list", 2, build_thread_list_params());
    assert_eq!(
        list,
        r#"{"id":2,"method":"thread/list","params":{"archived":false,"cursor":null,"limit":1,"modelProviders":null,"sortDirection":"desc","sortKey":"updated_at","sourceKinds":[]}}"#
    );
}

fn int_member(value: &JsonValue, key: &str) -> Option<i64> {
    i64_of(get_member(value, key))
}

#[test]
fn config_text_migration_inherits_refresh_and_alert_settings() {
    let migrated = migrate_user_config_text(
        r#"{"windsurf_auto_refresh_minutes":15,"quota_alert_enabled":true,"quota_alert_threshold":30,"minimize_behavior":"tray_only","codex_quota_alert_threshold":5}"#,
    )
    .unwrap();
    assert_eq!(int_member(&migrated, "kiro_auto_refresh_minutes"), Some(15));
    assert_eq!(int_member(&migrated, "cursor_auto_refresh_minutes"), Some(15));
    assert_eq!(int_member(&migrated, "gemini_auto_refresh_minutes"), Some(15));
    assert_eq!(int_member(&migrated, "trae_auto_refresh_minutes"), Some(15));
    assert_eq!(int_member(&migrated, "codex_auto_refresh_minutes"), None);
    assert!(matches!(get_member(&migrated, "hide_dock_icon"), Some(JsonValue::Bool(true))));
    assert!(matches!(get_member(&migrated, "cursor_quota_alert_enabled"), Some(JsonValue::Bool(true))));
    assert_eq!(int_member(&migrated, "cursor_quota_alert_threshold"), Some(30));
    assert_eq!(int_member(&migrated, "codex_quota_alert_threshold"), Some(5));

    let error = migrate_user_config_text("{not json").unwrap_err();
    assert!(error.starts_with("解析配置文件失败: "));
    assert!(matches!(migrate_user_config_text("[1]").unwrap(), JsonValue::Array(_)));
}

#[test]
fn quota_errors_name_detail_code_and_body_length() {
    assert_eq!(extract_detail_code_from_body(r#"{"detail":{"code":"a"},"code":"c"}"#).as_deref(), Some("a"));
    assert_eq!(extract_detail_code_from_body(r#"{"error":{"code":"b"},"code":"c"}"#).as_deref(), Some("b"));
    assert_eq!(extract_detail_code_from_body(r#"{"code":"c"}"#).as_deref(), Some("c"));
    assert_eq!(extract_detail_code_from_body(r#"{"code":1}"#), None);
    assert_eq!(extract_detail_code_from_body("oops"), None);

    let body = br#"{"detail":{"code":"token_expired"}}"#;
    assert_eq!(
        quota_error_message("401 Unauthorized", body),
        format!("API 返回错误 401 Unauthorized [error_code:token_expired] [body_len:{}]", body.len())
    );
    assert_eq!(quota_error_message("502 Bad Gateway", b"bad"), "API 返回错误 502 Bad Gateway [body_len:3]");
}

#[test]
fn usage_log_statements_count_and_list_newest_first() {
    assert_eq!(
        usage_log_count_sql(" WHERE success = ?"),
        "SELECT COUNT(*) FROM request_logs WHERE success = ?"
    );
    let list = usage_log_list_sql(" WHERE success = ?");
    assert!(list.contains("FROM request_logs WHERE success = ?\n        ORDER BY timestamp DESC, id DESC"));
    assert!(list.contains("reasoning_tokens\n        FROM request_logs"));
    assert!(list.trim_end().ends_with("LIMIT ? OFFSET ?"));
    let params = usage_log_list_params(vec![SqlParam::Integer(1)], 20, 40);
    assert_eq!(params.len(), 3);
    assert!(matches!(params[1], SqlParam::Integer(20)));
    assert!(matches!(params[2], SqlParam::Integer(40)));
}

fn record(key: &str, label: &str, opened: Option<i64>) -> CodexWebProfileRecord {
    CodexWebProfileRecord {
        account_key: key.to_string(),
        display_label: label.to_string(),
        profile_path: format!("/profiles/{}", key),
        created_at: 1,
        last_opened_at: opened,
    }
}

#[test]
fn opened_profile_replaces_its_records_and_keeps_keys_sorted() {
    let key = "abcdef0123456789abcdef0123456789abcdef0123456789abcdef0123456789";
    let profiles = vec![record("zz", "Z", None), record("aa", "A", Some(3))];
    let updated = record_opened_profile(profiles, key, "/profiles/new", 50);
    let keys: Vec<&str> = updated.iter().map(|r| r.account_key.as_str()).collect();
    assert_eq!(keys, vec!["aa", key, "zz"]);
    assert_eq!(updated[1].display_label, "Codex Web abcdef012345");
    assert_eq!(updated[1].profile_path, "/profiles/new");
    assert_eq!(updated[1].created_at, 50);
    assert_eq!(updated[1].last_opened_at, Some(50));

    let again = record_opened_profile(
        vec![record(key, "Mine", None), record("aa", "A", None), record(key, "Dup", None)],
        key,
        "/ignored",
        60,
    );
    assert_eq!(again.len(), 2);
    assert_eq!(again[1].display_label, "Mine");
    assert_eq!(again[1].created_at, 1);
    assert_eq!(again[1].last_opened_at, Some(60));
}

#[test]
fn paths_join_with_the_platform_separator() {
    assert_eq!(join_path_exec("/home/u", "x", '/'), "/home/u/x");
    assert_eq!(join_path_exec("/home/u/", "x", '/'), "/home/u/x");
    assert_eq!(join_path_exec("C:\\Users\\u", "x", '\\'), "C:\\Users\\u\\x");
    assert_eq!(join_path_exec("C:\\Users\\u\\", "x", '\\'), "C:\\Users\\u\\x");
    assert_eq!(join_path_exec("C:\\Users\\u/", "x", '\\'), "C:\\Users\\u/x");
    assert_eq!(
        get_user_config_path_with(Some("C:\\Users\\u".to_string()), '\\').unwrap(),
        "C:\\Users\\u\\.antigravity_cockpit\\config.json"
    );
    assert!(get_user_config_path_with(None, '/').is_err());
}
