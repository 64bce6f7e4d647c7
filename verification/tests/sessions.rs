use cockpit_core::cursor_oauth::{
    begin_login, cancel_login, check_pending_login, code_challenge, poll_gate, poll_step,
    poll_timeout, poll_url, start_login, PendingOAuthState, PollOutcome, PollStep,
};
use cockpit_core::rewrite_queue::{
    content_hash, finish_job, finish_send, schedule_account_rewrite,
    schedule_account_rewrite_if_unchanged, PendingKeys, SendOutcome,
};
use cockpit_core::profile_path::{
    path_components, PathPart, check_canonical_profile, check_profile_under_root, check_relative_profile_path,
};
use cockpit_core::web_profile::{
    codex_web_url, command_line_has_firefox_profile, file_name_of, get_status, is_firefox_process,
    profile_account_key, profile_in_use_from_processes, record_for, valid_account_key,
    verification_mailbox_url, CodexWebProfileRecord, CodexWebProfileState, ProcessSnapshot,
};

fn args(items: &[&str]) -> Vec<String> {
    items.iter().map(|item| item.to_string()).collect()
}

#[test]
fn account_key_is_stable_and_non_email_shaped() {
    let key = profile_account_key("account-id-1").unwrap();
    assert_eq!(key.len(), 64);
    assert!(!key.contains('@'));
    assert_eq!(key, profile_account_key("account-id-1").unwrap());
}

#[test]
fn account_key_is_the_hex_digest_of_the_trimmed_id() {
    assert_eq!(
        profile_account_key("  abc ").unwrap(),
        "ba7816bf8f01cfea414140de5dae2223b00361a396177a9cb410ff61f20015ad"
    );
    assert!(valid_account_key(&profile_account_key("x").unwrap()));
    assert_eq!(profile_account_key("   ").unwrap_err(), "Codex 账号 ID 为空");
    assert!(!valid_account_key("../outside"));
    assert!(!valid_account_key(&"g".repeat(64)));
    assert!(valid_account_key(&"A".repeat(64)));
}

#[test]
fn web_urls() {
    assert_eq!(codex_web_url(), "https://chatgpt.com/codex");
    assert_eq!(verification_mailbox_url(), "https://chongzhi.art/mailbox");
}

#[test]
fn command_line_matching_requires_exact_profile_path() {
    let path = "/tmp/cockpit-profile";
    assert!(command_line_has_firefox_profile(
        &args(&[
            "/Applications/Firefox.app/Contents/MacOS/firefox",
            "-profile",
            path,
            "-no-remote",
        ]),
        path,
    ));
    assert!(!command_line_has_firefox_profile(
        &args(&[
            "/Applications/Firefox.app/Contents/MacOS/firefox",
            "-profile",
            "/tmp/cockpit-profile-other",
        ]),
        path,
    ));
    assert!(command_line_has_firefox_profile(
        &args(&[
            "/Applications/Firefox.app/Contents/MacOS/firefox",
            "-profile",
            "/tmp/cockpit profile",
        ]),
        "/tmp/cockpit profile",
    ));
}

#[test]
fn process_query_error_fails_closed() {
    let result = profile_in_use_from_processes(Err("test failure".to_string()), "/tmp/cockpit-profile");
    assert!(result.is_err());
}

#[test]
fn process_detection_requires_firefox_binary() {
    let expected = "/tmp/cockpit-profile";
    let cmd = args(&[
        "/Applications/Firefox.app/Contents/MacOS/firefox",
        "-profile",
        "/tmp/cockpit-profile",
    ]);
    let firefox = ProcessSnapshot {
        name: "firefox".to_string(),
        exe: Some("/Applications/Firefox.app/Contents/MacOS/firefox".to_string()),
        cmd: cmd.clone(),
    };
    let other_browser = ProcessSnapshot {
        name: "Other Browser".to_string(),
        exe: Some("/Applications/Other Browser.app/Contents/MacOS/browser".to_string()),
        cmd: args(&["/usr/bin/browser", "-profile", "/tmp/cockpit-profile"]),
    };
    assert!(profile_in_use_from_processes(Ok(vec![firefox]), expected).unwrap());
    assert!(!profile_in_use_from_processes(Ok(vec![other_browser]), expected).unwrap());
}

#[test]
fn file_names_follow_path_components() {
    assert_eq!(file_name_of("/usr/bin/firefox").as_deref(), Some("firefox"));
    assert_eq!(file_name_of("/usr/bin/firefox/").as_deref(), Some("firefox"));
    assert_eq!(file_name_of("/usr/bin/firefox/.").as_deref(), Some("firefox"));
    assert_eq!(file_name_of("/usr/bin/.."), None);
    assert_eq!(file_name_of("/"), None);
    assert_eq!(file_name_of("firefox-bin").as_deref(), Some("firefox-bin"));
    assert!(is_firefox_process("Firefox.EXE", None, &Vec::new()));
    assert!(is_firefox_process("x", Some("/opt/firefox/firefox-bin"), &Vec::new()));
    assert!(is_firefox_process("x", None, &args(&["/usr/lib/FIREFOX", "-new-instance"])));
    assert!(!is_firefox_process("x", Some("/opt/firefox/browser"), &args(&["firefoxish"])));
    assert!(command_line_has_firefox_profile(
        &args(&["firefox", "-profile", "/TMP/Cockpit-Profile///"]),
        "/tmp/cockpit-profile",
    ));
}

fn record(key: &str, label: &str) -> CodexWebProfileRecord {
    CodexWebProfileRecord {
        account_key: key.to_string(),
        display_label: label.to_string(),
        profile_path: format!("codex_web_profiles/{}", key),
        created_at: 10,
        last_opened_at: Some(20),
    }
}

#[test]
fn status_reports_record_and_probe() {
    let key = profile_account_key("acc-7").unwrap();
    let status = get_status("acc-7", &Vec::new(), Ok(true)).unwrap();
    assert_eq!(status.state, CodexWebProfileState::NotCreated);
    assert_eq!(status.account_key, key);
    assert_eq!(status.display_label, "");
    assert_eq!(status.created_at, None);

    let profiles = vec![record("other", "x"), record(&key, "first"), record(&key, "second")];
    assert_eq!(record_for(&profiles, &key).unwrap().display_label, "first");
    let status = get_status(" acc-7 ", &profiles, Ok(false)).unwrap();
    assert_eq!(status.state, CodexWebProfileState::Created);
    assert_eq!(status.display_label, "first");
    assert_eq!(status.created_at, Some(10));
    assert_eq!(status.last_opened_at, Some(20));
    let status = get_status("acc-7", &profiles, Ok(true)).unwrap();
    assert_eq!(status.state, CodexWebProfileState::InUse);
    assert_eq!(
        get_status("acc-7", &profiles, Err("probe failed".to_string())).unwrap_err(),
        "probe failed"
    );
    assert_eq!(get_status("", &profiles, Ok(false)).unwrap_err(), "Codex 账号 ID 为空");
}

#[test]
fn login_session_starts_and_is_checked() {
    let mut pending: Option<PendingOAuthState> = None;
    let response = begin_login(&mut pending, "verifier-1".to_string(), "uuid-1".to_string(), 1_000);
    assert_eq!(response.login_id, "uuid-1");
    assert_eq!(response.expires_in, 300);
    assert_eq!(response.interval_seconds, 2);
    assert_eq!(
        response.verification_uri,
        format!(
            "https://cursor.com/loginDeepControl?challenge={}&uuid=uuid-1&mode=login",
            code_challenge("verifier-1")
        )
    );
    assert_eq!(code_challenge("abc"), "ungWv48Bz-pBQUDeXa4iI7ADYaOWF3qctBD_YfIAFa0");
    let state = pending.as_ref().unwrap();
    assert_eq!(state.expires_at, 1_300);
    assert!(!state.cancelled);

    assert_eq!(
        check_pending_login(&pending, "uuid-1", 1_300).unwrap(),
        ("uuid-1".to_string(), "verifier-1".to_string())
    );
    assert_eq!(check_pending_login(&pending, "uuid-1", 1_301).unwrap_err(), "登录会话已过期");
    assert_eq!(
        check_pending_login(&pending, "uuid-2", 1_000).unwrap_err(),
        "login_id 不匹配: expected=uuid-1, got=uuid-2"
    );
    assert_eq!(check_pending_login(&None, "uuid-1", 0).unwrap_err(), "没有进行中的 Cursor 登录会话");
    assert_eq!(poll_gate(&pending, 1_000), None);
    assert_eq!(poll_gate(&pending, 2_000).as_deref(), Some("登录会话已过期"));
    assert_eq!(
        poll_url("u", "v"),
        "https://api2.cursor.sh/auth/poll?uuid=u&verifier=v"
    );

    let mut cancelled = pending.clone();
    cancelled.as_mut().unwrap().cancelled = true;
    assert_eq!(check_pending_login(&cancelled, "uuid-1", 0).unwrap_err(), "登录已取消");

    assert_eq!(cancel_login(&mut pending, Some("other")), Ok(()));
    assert!(pending.is_none());
}

#[test]
fn start_login_opens_a_random_session() {
    let mut pending: Option<PendingOAuthState> = None;
    let response = start_login(&mut pending).unwrap();
    assert_eq!(response.login_id.len(), 36);
    assert_eq!(response.login_id.chars().nth(14), Some('4'));
    let state = pending.unwrap();
    assert_eq!(state.login_id, response.login_id);
    assert_eq!(state.code_verifier.len(), 43);
    assert!(response.verification_uri.ends_with(&format!("&uuid={}&mode=login", response.login_id)));
}

#[test]
fn poll_outcomes_decide_the_next_step() {
    let mut pending = None;
    begin_login(&mut pending, "v".to_string(), "u".to_string(), 0);
    assert!(matches!(poll_step(&mut pending, PollOutcome::Status(404)), PollStep::Retry(2000)));
    assert!(matches!(poll_step(&mut pending, PollOutcome::RequestFailed), PollStep::Retry(4000)));
    assert!(matches!(
        poll_step(
            &mut pending,
            PollOutcome::Tokens { access_token: Some("a".to_string()), refresh_token: None, auth_id: None }
        ),
        PollStep::Retry(2000)
    ));
    assert!(pending.is_some());
    match poll_step(&mut pending, PollOutcome::BodyError("bad".to_string())) {
        PollStep::Fail(message) => assert_eq!(message, "bad"),
        _ => panic!("expected a failure"),
    }
    match poll_step(
        &mut pending,
        PollOutcome::Tokens {
            access_token: Some("a".to_string()),
            refresh_token: Some("r".to_string()),
            auth_id: Some("auth0|user".to_string()),
        },
    ) {
        PollStep::Done(tokens) => {
            assert_eq!(tokens.access_token, "a");
            assert_eq!(tokens.refresh_token, "r");
            assert_eq!(tokens.email, "");
            assert_eq!(tokens.auth_id.as_deref(), Some("auth0|user"));
        }
        _ => panic!("expected the tokens"),
    }
    assert!(pending.is_none());
    begin_login(&mut pending, "v".to_string(), "u".to_string(), 0);
    assert_eq!(poll_timeout(&mut pending), "Cursor 登录轮询超时，请重试");
    assert!(pending.is_none());
}

#[test]
fn content_hash_changes_with_source_bytes() {
    assert_ne!(content_hash(b"old"), content_hash(b"new"));
    assert_eq!(content_hash(b"same"), content_hash(b"same"));
}

#[test]
fn schedule_coalesces_same_platform_account_key() {
    let mut pending = PendingKeys::new();
    let first = schedule_account_rewrite(&mut pending, "test", "acc-coalesce");
    assert_eq!(first.as_deref(), Some("test:acc-coalesce"));
    finish_send(&mut pending, "test:acc-coalesce", SendOutcome::Sent);
    // The same key while the first job is still pending is dropped.
    assert_eq!(schedule_account_rewrite(&mut pending, "test", "acc-coalesce"), None);
    finish_job(&mut pending, "test:acc-coalesce");
    assert!(schedule_account_rewrite(&mut pending, "test", "acc-coalesce").is_some());
}

#[test]
fn bound_rewrites_carry_the_source_hash() {
    let mut pending = PendingKeys::new();
    let job = schedule_account_rewrite_if_unchanged(&mut pending, "codex", "a1", "/data/a1.json", b"{}")
        .unwrap();
    assert_eq!(job.key, "codex:a1:/data/a1.json");
    assert_eq!(job.expected_hash, content_hash(b"{}"));
    assert!(pending.contains("codex:a1:/data/a1.json"));
    assert!(schedule_account_rewrite_if_unchanged(&mut pending, "codex", "a1", "/data/a1.json", b"[]").is_none());
    finish_send(&mut pending, "codex:a1:/data/a1.json", SendOutcome::Full);
    assert!(!pending.contains("codex:a1:/data/a1.json"));
    assert!(schedule_account_rewrite(&mut pending, "codex", "a1").is_some());
}

#[test]
fn profile_ids_must_be_account_keys() {
    assert!(!valid_account_key("../outside"));
    let key = profile_account_key("account-id-2").unwrap();
    assert!(valid_account_key(&key));
}

#[test]
fn recorded_profile_paths_must_name_one_managed_directory() {
    let key = profile_account_key("account-id-3").unwrap();
    assert!(check_relative_profile_path("../outside").is_err());
    assert!(check_relative_profile_path("/abs/codex_web_profiles/x").is_err());
    assert!(check_relative_profile_path("./codex_web_profiles/x").is_err());
    assert!(check_relative_profile_path("   ").is_err());
    let managed = format!("codex_web_profiles/{key}");
    assert!(check_relative_profile_path(&managed).is_ok());
    assert!(check_profile_under_root(&managed, Some(&key)).is_ok());
    assert!(check_profile_under_root(&format!("codex_web_profiles//./{key}/"), Some(&key)).is_ok());
    assert_eq!(
        check_profile_under_root(&format!("other/{key}"), Some(&key)),
        Err("Web Profile 路径越过受管根目录".to_string())
    );
    assert_eq!(
        check_profile_under_root("codex_web_profiles/a/b", None),
        Err("Web Profile 路径格式不合法".to_string())
    );
    assert_eq!(
        check_profile_under_root("codex_web_profiles/other", Some(&key)),
        Err("Web Profile 路径格式不合法".to_string())
    );
}

#[test]
fn resolved_profile_must_lie_strictly_inside_root() {
    assert!(check_canonical_profile("/data/codex_web_profiles/abc", "/data/codex_web_profiles").is_ok());
    assert!(check_canonical_profile("/data/codex_web_profiles", "/data/codex_web_profiles/").is_err());
    assert!(check_canonical_profile("/data/codex_web_profiles-x/abc", "/data/codex_web_profiles").is_err());
    assert!(check_canonical_profile("/elsewhere/abc", "/data/codex_web_profiles").is_err());
}

#[test]
fn path_components_follow_std_path_on_unix() {
    let parts = path_components("/a//./b/../c/");
    assert_eq!(parts.len(), 5);
    assert!(matches!(parts[0], PathPart::Root));
    assert!(matches!(&parts[1], PathPart::Normal(n) if n.iter().collect::<String>() == "a"));
    assert!(matches!(parts[3], PathPart::Parent));
    assert!(matches!(path_components("./x")[0], PathPart::Cur));
    assert_eq!(path_components("").len(), 0);
}
