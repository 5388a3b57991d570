use bili_hardcore::json::Json;
use bili_hardcore::llm::providers::openai_chat::{
    api_dialect, build_request_body, dialect_of_host, extract_text, parse_payload, ApiDialect,
    MAX_VISIBLE_OUTPUT_TOKENS,
};
use bili_hardcore::llm::shared::payload::ParsedPayload;

fn json(text: &str) -> Json {
    Json::parse(text).unwrap()
}

/// The value at the end of a path of keys and places; null where there is none.
fn at<'a>(value: &'a Json, path: &[&str]) -> &'a Json {
    let mut value = value;
    for step in path {
        value = match value {
            Json::Array(items) => &items[step.parse::<usize>().unwrap()],
            _ => value.get(step).unwrap_or(&Json::Null),
        };
    }
    value
}

#[test]
fn openai_chat_detects_api_dialect_by_host_and_model() {
    assert_eq!(
        api_dialect("https://api.openai.com/v1/chat/completions", "gpt-test"),
        ApiDialect::OpenAi
    );
    assert_eq!(
        api_dialect("https://API.X.AI:443/v1/chat/completions", "grok-4.6"),
        ApiDialect::XAi
    );
    assert_eq!(
        api_dialect("http://proxy.example/chat/completions", " Grok-4.6 "),
        ApiDialect::XAi
    );
    assert_eq!(
        api_dialect(
            "https://api.x.ai.example/v1/chat/completions",
            "other-model"
        ),
        ApiDialect::Extended
    );
    assert_eq!(
        api_dialect("http://proxy.example/chat/completions", "deepseek-chat"),
        ApiDialect::Extended
    );
}

#[test]
fn openai_chat_xai_body_maps_reasoning_effort_and_limits_completion() {
    for (saved, expected) in [
        ("low", "low"),
        ("medium", "medium"),
        ("high", "high"),
        ("max", "xhigh"),
        ("xhigh", "xhigh"),
        ("edited-value", "high"),
    ] {
        let body = build_request_body(ApiDialect::XAi, "grok-4.6", "question", true, saved);
        assert_eq!(at(&body, &["reasoning_effort"]).as_str(), Some(expected));
        assert_eq!(at(&body, &["max_completion_tokens"]).as_u64(), Some(MAX_VISIBLE_OUTPUT_TOKENS));
    }

    let disabled = build_request_body(ApiDialect::XAi, "grok-4.6", "question", false, "max");
    assert_eq!(at(&disabled, &["reasoning_effort"]).as_str(), Some("low"));
    assert!(disabled.get("enable_thinking").is_none());
    assert!(disabled.get("thinking").is_none());
}

#[test]
fn openai_chat_existing_dialects_keep_their_reasoning_fields_and_output_limit() {
    let openai = build_request_body(ApiDialect::OpenAi, "gpt-test", "question", true, "high");
    assert_eq!(at(&openai, &["reasoning_effort"]).as_str(), Some("high"));
    assert_eq!(at(&openai, &["max_completion_tokens"]).as_u64(), Some(MAX_VISIBLE_OUTPUT_TOKENS));
    assert!(openai.get("max_tokens").is_none());
    assert!(openai.get("enable_thinking").is_none());

    let extended = build_request_body(ApiDialect::Extended, "other", "question", false, "max");
    assert_eq!(at(&extended, &["enable_thinking"]).as_bool(), Some(false));
    assert_eq!(at(&extended, &["thinking", "type"]).as_str(), Some("disabled"));
    assert_eq!(at(&extended, &["reasoning_effort"]).as_str(), Some("none"));
    assert_eq!(at(&extended, &["max_tokens"]).as_u64(), Some(MAX_VISIBLE_OUTPUT_TOKENS));
    assert!(extended.get("max_completion_tokens").is_none());
}

#[test]
fn openai_chat_parses_synchronous_message_content() {
    let value = json(r#"{
        "choices": [{"message": {"content": "3"}}]
    }"#);
    assert_eq!(
        parse_payload(&value),
        Ok(Some(ParsedPayload {
            reasoning: None,
            content: Some("3".to_string())
        }))
    );
}

#[test]
fn openai_chat_parses_reasoning_and_text_part_arrays() {
    let value = json(r#"{
        "choices": [{"message": {
            "reasoning_content": "分析",
            "content": [
                {"type": "text", "text": "答案"},
                {"type": "output_text", "text": "是2"}
            ]
        }}]
    }"#);
    assert_eq!(
        parse_payload(&value),
        Ok(Some(ParsedPayload {
            reasoning: Some("分析".to_string()),
            content: Some("答案是2".to_string())
        }))
    );
}

#[test]
fn openai_chat_parses_stream_delta_and_message_fallback() {
    let delta = json(r#"{"choices": [{"delta": {"content": "1"}}]}"#);
    let message = json(r#"{"choices": [{"message": {"content": "4"}}]}"#);
    assert_eq!(
        parse_payload(&delta).unwrap().unwrap().content.as_deref(),
        Some("1")
    );
    assert_eq!(
        parse_payload(&message).unwrap().unwrap().content.as_deref(),
        Some("4")
    );
}

#[test]
fn openai_chat_empty_choices_and_api_errors_are_not_content() {
    assert_eq!(parse_payload(&json(r#"{"choices": []}"#)), Ok(None));
    assert!(
        parse_payload(&json(r#"{"error": {"message": "bad request"}}"#))
            .unwrap_err()
            .contains("bad request")
    );
    assert!(
        parse_payload(&json(r#"{
            "choices": [{"message": {"content": {"unsupported": true}}}]
        }"#))
        .is_err()
    );
}

#[test]
fn a_host_decides_before_the_model() {
    assert_eq!(dialect_of_host(Some("api.openai.com"), "grok-4"), ApiDialect::OpenAi);
    assert_eq!(dialect_of_host(Some("a"), "grok-4"), ApiDialect::XAi);
    assert_eq!(dialect_of_host(None, "gpt"), ApiDialect::Extended);
}

#[test]
fn each_unreadable_content_has_its_own_message() {
    let message = |text: &str| extract_text(Some(&json(text))).unwrap_err();
    assert_eq!(message(r#"[{"type": "image"}]"#), "LLM content 数组包含不支持的内容类型");
    assert_eq!(message(r#"["a", 3]"#), "LLM content 数组包含不支持的内容类型");
    assert_eq!(message(r#"[{"x": 1}, 3]"#), "LLM content 数组包含无法识别的文本结构");
    assert_eq!(message("{}"), "LLM content 使用了无法识别的对象结构");
    assert_eq!(message("3"), "LLM content 不是文本或文本数组");
    assert_eq!(extract_text(None), Ok(None));
    assert_eq!(extract_text(Some(&json(r#"[null, {}, ""]"#))), Ok(None));
    assert_eq!(extract_text(Some(&json(r#"{"text": "t"}"#))), Ok(Some("t".to_string())));
}
