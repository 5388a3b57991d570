use bili_hardcore::config::{
    auth_expired, auth_path, categories_path, default_reasoning_effort, history_path,
    migrate_legacy, openai_config_path, LlmConfig,
};
use bili_hardcore::json::Json;
use bili_hardcore::llm::protocol::{endpoint, normalize_base, Protocol};

/// A configuration as an old file holds it: no protocol, and the defaults for the rest.
fn legacy(text: &str) -> LlmConfig {
    let value = Json::parse(text).expect("旧配置应可解析");
    LlmConfig {
        base_url: value.str_at("base_url").unwrap().to_string(),
        model: value.str_at("model").unwrap().to_string(),
        api_key: value.str_at("api_key").unwrap().to_string(),
        protocol: None,
        enable_thinking: false,
        reasoning_effort: default_reasoning_effort(),
        enable_fast_mode: false,
    }
}

#[test]
fn legacy_config_without_protocol_resolves_by_base_url() {
    let config = legacy(
        r#"{
            "base_url": "https://api.typesafe.ai/v1/systemone",
            "model": "jev-latest",
            "api_key": "k"
        }"#,
    );
    assert_eq!(config.protocol, None);
    assert_eq!(config.protocol(), Protocol::Jev);
    assert_eq!(normalize_base(&config.base_url), "https://api.typesafe.ai");

    let config = legacy(
        r#"{
            "base_url": "https://api.x.ai/v1/chat/completions",
            "model": "grok-4.6",
            "api_key": "k"
        }"#,
    );
    assert_eq!(config.protocol(), Protocol::OpenAiChat);
    assert_eq!(
        endpoint(Protocol::OpenAiChat, &config.base_url, &config.model),
        "https://api.x.ai/v1/chat/completions"
    );
}

#[test]
fn legacy_jev_relay_keeps_the_jev_protocol() {
    let config = migrate_legacy(legacy(
        r#"{
            "base_url": "http://192.168.0.2:3000/v1/systemone",
            "model": "jev-1.13.0",
            "api_key": "k"
        }"#,
    ));
    assert_eq!(config.protocol(), Protocol::Jev);
    assert_eq!(config.base_url, "http://192.168.0.2:3000");
    assert_eq!(
        endpoint(Protocol::Jev, &config.base_url, &config.model),
        "http://192.168.0.2:3000/v1/systemone"
    );
}

#[test]
fn explicit_protocol_wins_over_url_inference() {
    let config = LlmConfig {
        base_url: "https://relay.example.com".to_string(),
        model: "m".to_string(),
        api_key: "k".to_string(),
        protocol: Some(Protocol::Claude),
        enable_thinking: true,
        reasoning_effort: "high".to_string(),
        enable_fast_mode: false,
    };
    assert_eq!(config.protocol(), Protocol::Claude);
}

#[test]
fn migration_leaves_a_new_configuration_alone() {
    let config = LlmConfig {
        base_url: "https://relay.example.com/v1/chat/completions".to_string(),
        model: "m".to_string(),
        api_key: "k".to_string(),
        protocol: Some(Protocol::Claude),
        enable_thinking: true,
        reasoning_effort: "max".to_string(),
        enable_fast_mode: true,
    };
    let migrated = migrate_legacy(config);
    assert_eq!(migrated.base_url, "https://relay.example.com/v1/chat/completions");
    assert_eq!(migrated.protocol, Some(Protocol::Claude));
    assert_eq!(migrated.reasoning_effort, "max");
    assert!(migrated.enable_fast_mode);
}

#[test]
fn files_lie_below_the_settings_directory() {
    assert_eq!(openai_config_path(), [".bili-hardcore", "openai_config.json"]);
    assert_eq!(auth_path(), [".bili-hardcore", "auth.json"]);
    assert_eq!(categories_path(), [".bili-hardcore", "categories.json"]);
    assert_eq!(history_path(), [".bili-hardcore", "history.json"]);
    assert_eq!(default_reasoning_effort(), "high");
}

#[test]
fn a_login_lasts_a_week() {
    assert!(!auth_expired(0));
    assert!(!auth_expired(604_800));
    assert!(auth_expired(604_801));
}
