use cockpit_core::codex_config::{
    cleaned_profile_config, is_codex_local_access_config, remove_codex_local_access_config,
    remove_local_access_provider,
};

#[test]
fn removes_only_codex_local_access_provider_config() {
    let input = r#"model_provider = "codex_local_access"
model_context_window = 1000000

[model_providers.codex_local_access]
name = "Codex API Service"
base_url = "http://127.0.0.1:57391/v1"
wire_api = "responses"
requires_openai_auth = true

[model_providers.manual]
name = "Manual"
base_url = "https://manual.example.com/v1"
wire_api = "responses"
"#;

    let output = remove_codex_local_access_config(input).expect("cleanup config");
    let parsed = output
        .parse::<toml_edit::DocumentMut>()
        .expect("parse cleaned toml");

    assert!(parsed.get("model_provider").is_none());
    assert_eq!(
        parsed
            .get("model_context_window")
            .and_then(|item| item.as_integer()),
        Some(1_000_000)
    );
    let providers = parsed
        .get("model_providers")
        .and_then(|item| item.as_table())
        .expect("model_providers should remain");
    assert!(providers.get("codex_local_access").is_none());
    assert!(providers.get("manual").is_some());
}

#[test]
fn config_cleanup_keeps_blank_foreign_and_reports_bad_toml() {
    assert_eq!(remove_codex_local_access_config("  \n").unwrap(), "");
    let foreign = "model_provider = \"manual\"\n";
    assert_eq!(remove_codex_local_access_config(foreign).unwrap(), foreign);
    let error = remove_codex_local_access_config("model_provider = ").unwrap_err();
    assert!(error.starts_with("解析 Codex config.toml 失败: "));
}

#[test]
fn config_cleanup_drops_model_providers_left_empty() {
    let input = "model_provider = \" codex_local_access \"\n\n[model_providers.codex_local_access]\nname = \"x\"\n";
    let output = remove_codex_local_access_config(input).unwrap();
    let parsed = output.parse::<toml_edit::DocumentMut>().unwrap();
    assert!(parsed.get("model_provider").is_none());
    assert!(parsed.get("model_providers").is_none());

    let mut doc = "model_provider = \"other\"\n".parse::<toml_edit::DocumentMut>().unwrap();
    assert!(!remove_local_access_provider(&mut doc));
    assert!(doc.get("model_provider").is_some());
}

#[test]
fn detects_and_cleans_only_local_access_profile_configs() {
    assert!(is_codex_local_access_config("model_provider = \"codex_local_access\"\n"));
    assert!(!is_codex_local_access_config("model_provider = \"manual\"\n"));
    assert!(!is_codex_local_access_config("model_provider = "));

    assert_eq!(cleaned_profile_config("model_provider = \"manual\"\n").unwrap(), None);
    assert_eq!(cleaned_profile_config("model_provider = \"codex_local_access\"\n").unwrap(), Some(None));
    let kept = cleaned_profile_config("model_provider = \"codex_local_access\"\nmodel = \"gpt-5.4\"\n")
        .unwrap()
        .unwrap()
        .unwrap();
    assert!(kept.contains("model = \"gpt-5.4\""));
    assert!(!kept.contains("model_provider"));
}
