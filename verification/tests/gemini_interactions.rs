use bili_hardcore::json::Json;
use bili_hardcore::llm::providers::gemini_interactions::{
    build_request_body, collect_thoughts, parse_interaction, thinking_level,
};
use bili_hardcore::llm::shared::payload::ParsedPayload;

fn json(text: &str) -> Json {
    Json::parse(text).unwrap()
}

/// The value at the end of a path of keys and places; null where there is none.
fn at<'a>(value: &'a Json, path: &[&str]) -> &'a Json {
    let mut value = value;
    for step in path {
        value = match value {
            Json::Array(items) => &items[step.parse::<usize>().unwrap()],
            _ => value.get(step).unwrap_or(&Json::Null),
        };
    }
    value
}

#[test]
fn request_body_uses_input_and_flat_generation_config() {
    let body = build_request_body("gemini-3-flash-preview", "题目", true, "high");
    assert_eq!(at(&body, &["model"]).as_str(), Some("gemini-3-flash-preview"));
    assert_eq!(at(&body, &["input"]).as_str(), Some("题目"));
    assert_eq!(at(&body, &["stream"]).as_bool(), None, "只发非流式请求");
    assert_eq!(at(&body, &["generation_config", "thinking_level"]).as_str(), Some("high"));
    assert!(body.get("generationConfig").is_none());
    assert!(at(&body, &["generation_config"]).get("thinkingConfig").is_none());
    assert_eq!(at(&body, &["store"]).as_bool(), Some(false), "答题不需要留存交互记录");
}

#[test]
fn thinking_level_matches_generate_content_rules() {
    assert_eq!(thinking_level(true, "minimal"), "minimal");
    assert_eq!(thinking_level(true, "medium"), "medium");
    assert_eq!(thinking_level(true, "max"), "high");
    assert_eq!(thinking_level(true, "手改的值"), "high");
    assert_eq!(thinking_level(false, "high"), "low");
}

#[test]
fn parses_output_text_as_the_answer() {
    let value = json(r#"{
        "id": "interactions/abc",
        "output_text": "3",
        "steps": [{"type": "thought", "text": "在推理"}]
    }"#);
    assert_eq!(
        parse_interaction(&value).unwrap(),
        ParsedPayload {
            reasoning: Some("在推理".to_string()),
            content: Some("3".to_string())
        }
    );
}

#[test]
fn unmarked_steps_never_leak_into_the_thinking_channel() {
    let value = json(r#"{
        "output_text": "3",
        "steps": [
            {"type": "model_output", "text": "3"},
            {"type": "tool_call", "text": "忽略我"}
        ]
    }"#);
    assert_eq!(
        parse_interaction(&value).unwrap(),
        ParsedPayload {
            reasoning: None,
            content: Some("3".to_string())
        }
    );
}

#[test]
fn missing_or_blank_output_text_is_not_content() {
    assert_eq!(parse_interaction(&json(r#"{}"#)).unwrap().content, None);
    let blank = json(r#"{"output_text": "   "}"#);
    assert_eq!(parse_interaction(&blank).unwrap().content, None);
}

#[test]
fn api_errors_are_reported() {
    let value = json(r#"{
        "error": {"code": 400, "message": "model not found", "status": "INVALID_ARGUMENT"}
    }"#);
    assert!(parse_interaction(&value).unwrap_err().contains("model not found"));
}

#[test]
fn marked_steps_are_put_together() {
    let steps = json(
        r#"[{"type": "thought", "thought": "a", "text": "b"}, {"type": "x", "text": "no"},
            {"type": "model_thinking", "text": "c"}]"#,
    );
    assert_eq!(collect_thoughts(Some(&steps)).as_deref(), Some("abc"));
    assert_eq!(collect_thoughts(None), None);
    assert_eq!(collect_thoughts(Some(&json("{}"))), None);
}
