use bili_hardcore::json::Json;
use bili_hardcore::llm::providers::claude::{
    build_request_body, max_tokens, output_effort, parse_event, text_from_message,
};
use bili_hardcore::llm::shared::payload::ParsedPayload;

fn json(text: &str) -> Json {
    Json::parse(text).unwrap()
}

/// The value at the end of a path of keys and places; null where there is none.
fn at<'a>(value: &'a Json, path: &[&str]) -> &'a Json {
    let mut value = value;
    for step in path {
        value = match value {
            Json::Array(items) => &items[step.parse::<usize>().unwrap()],
            _ => value.get(step).unwrap_or(&Json::Null),
        };
    }
    value
}

#[test]
fn request_body_uses_messages_system_and_output_config() {
    let body = build_request_body("anthropic-sonnet-5", "人设", "题目", true, "high");
    assert_eq!(at(&body, &["model"]).as_str(), Some("anthropic-sonnet-5"));
    assert_eq!(at(&body, &["system"]).as_str(), Some("人设"));
    assert_eq!(at(&body, &["messages", "0", "role"]).as_str(), Some("user"));
    assert_eq!(at(&body, &["messages", "0", "content"]).as_str(), Some("题目"));
    assert_eq!(at(&body, &["output_config", "effort"]).as_str(), Some("high"));
    assert_eq!(at(&body, &["stream"]).as_bool(), Some(true));
    assert!(at(&body, &["max_tokens"]).as_u64().unwrap() >= 16384);
    assert!(body.get("thinking").is_none());
}

#[test]
fn effort_levels_pass_through_and_never_disable_thinking() {
    for (saved, expected) in [
        ("low", "low"),
        ("medium", "medium"),
        ("high", "high"),
        ("max", "max"),
        ("xhigh", "xhigh"),
        ("手改的值", "high"),
    ] {
        assert_eq!(output_effort(true, saved), expected);
    }
    assert_eq!(output_effort(false, "max"), "low");
}

#[test]
fn max_tokens_grows_with_effort() {
    assert_eq!(max_tokens(false, "max"), 4096);
    assert!(max_tokens(true, "low") < max_tokens(true, "high"));
    assert!(max_tokens(true, "high") < max_tokens(true, "max"));
    assert_eq!(max_tokens(true, "xhigh"), 65536);
}

#[test]
fn parses_text_and_thinking_block_deltas() {
    let text = json(r#"{
        "type": "content_block_delta",
        "delta": {"type": "text_delta", "text": "2"}
    }"#);
    assert_eq!(
        parse_event(&text).unwrap(),
        ParsedPayload {
            reasoning: None,
            content: Some("2".to_string())
        }
    );

    let thinking = json(r#"{
        "type": "content_block_delta",
        "delta": {"type": "thinking_delta", "thinking": "推理"}
    }"#);
    assert_eq!(
        parse_event(&thinking).unwrap(),
        ParsedPayload {
            reasoning: Some("推理".to_string()),
            content: None
        }
    );

    let signature = json(r#"{
        "type": "content_block_delta",
        "delta": {"type": "signature_delta", "signature": "abc"}
    }"#);
    assert_eq!(parse_event(&signature).unwrap(), ParsedPayload::default());

    let ping = json(r#"{"type": "ping"}"#);
    assert_eq!(parse_event(&ping).unwrap(), ParsedPayload::default());

    let start = json(r#"{
        "type": "content_block_start",
        "content_block": {"type": "text", "text": ""}
    }"#);
    assert_eq!(parse_event(&start).unwrap(), ParsedPayload::default());
}

#[test]
fn error_events_and_messages_are_reported() {
    let error_event = json(r#"{
        "type": "error",
        "error": {"type": "overloaded_error", "message": "Overloaded"}
    }"#);
    assert!(parse_event(&error_event).unwrap_err().contains("Overloaded"));

    let message = json(r#"{
        "content": [
            {"type": "thinking", "thinking": "想"},
            {"type": "text", "text": "3"}
        ]
    }"#);
    assert_eq!(text_from_message(&message).as_deref(), Some("3"));

    let empty = json(r#"{"content": [{"type": "text", "text": ""}]}"#);
    assert_eq!(text_from_message(&empty), None);
}

#[test]
fn a_block_may_start_with_its_text() {
    let start = json(r#"{"type": "content_block_start", "content_block": {"text": "2", "thinking": "想"}}"#);
    assert_eq!(
        parse_event(&start).unwrap(),
        ParsedPayload { reasoning: Some("想".to_string()), content: Some("2".to_string()) }
    );
    assert_eq!(text_from_message(&json(r#"{"content": "no list"}"#)), None);
}
