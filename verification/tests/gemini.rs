use bili_hardcore::json::Json;
use bili_hardcore::llm::providers::gemini::{
    build_request_body, parse_chunk, thinking_level, MAX_OUTPUT_TOKENS,
};
use bili_hardcore::llm::shared::payload::ParsedPayload;

fn json(text: &str) -> Json {
    Json::parse(text).unwrap()
}

/// The value at the end of a path of keys and places; null where there is none.
fn at<'a>(value: &'a Json, path: &[&str]) -> &'a Json {
    let mut value = value;
    for step in path {
        value = match value {
            Json::Array(items) => &items[step.parse::<usize>().unwrap()],
            _ => value.get(step).unwrap_or(&Json::Null),
        };
    }
    value
}

#[test]
fn request_body_uses_contents_and_thinking_level() {
    let body = build_request_body("人设", "题目", true, "high");
    assert_eq!(at(&body, &["systemInstruction", "parts", "0", "text"]).as_str(), Some("人设"));
    assert_eq!(at(&body, &["contents", "0", "role"]).as_str(), Some("user"));
    assert_eq!(at(&body, &["contents", "0", "parts", "0", "text"]).as_str(), Some("题目"));
    assert_eq!(at(&body, &["generationConfig", "maxOutputTokens"]).as_u64(), Some(u64::from(MAX_OUTPUT_TOKENS)));
    assert_eq!(at(&body, &["generationConfig", "thinkingConfig", "thinkingLevel"]).as_str(), Some("high"));
    assert_eq!(at(&body, &["generationConfig", "thinkingConfig", "includeThoughts"]).as_bool(), Some(true));
    assert!(body.get("model").is_none());
}

#[test]
fn thinking_level_maps_project_levels_and_keeps_thoughts_off() {
    assert_eq!(thinking_level(true, "minimal"), "minimal");
    assert_eq!(thinking_level(true, "low"), "low");
    assert_eq!(thinking_level(true, "medium"), "medium");
    assert_eq!(thinking_level(true, "high"), "high");
    assert_eq!(thinking_level(true, "max"), "high");
    assert_eq!(thinking_level(true, "手改的值"), "high");
    assert_eq!(thinking_level(false, "high"), "low");
    let body = build_request_body("人设", "题目", false, "max");
    assert_eq!(at(&body, &["generationConfig", "thinkingConfig", "thinkingLevel"]).as_str(), Some("low"));
    assert_eq!(at(&body, &["generationConfig", "thinkingConfig", "includeThoughts"]).as_bool(), Some(false));
}

#[test]
fn parses_candidate_parts_splitting_thoughts_from_answer() {
    let value = json(r#"{
        "candidates": [{
            "content": {
                "role": "model",
                "parts": [
                    {"text": "在推理", "thought": true},
                    {"text": "3"}
                ]
            }
        }]
    }"#);
    assert_eq!(
        parse_chunk(&value).unwrap(),
        ParsedPayload {
            reasoning: Some("在推理".to_string()),
            content: Some("3".to_string())
        }
    );
}

#[test]
fn empty_and_metadata_only_chunks_are_not_content() {
    let metadata = json(r#"{
        "candidates": [{"content": {"role": "model"}, "finishReason": "STOP"}],
        "usageMetadata": {"totalTokenCount": 42}
    }"#);
    assert_eq!(parse_chunk(&metadata).unwrap(), ParsedPayload::default());

    let empty = json(r#"{}"#);
    assert_eq!(parse_chunk(&empty).unwrap(), ParsedPayload::default());
}

#[test]
fn blocked_requests_and_api_errors_surface_messages() {
    let feedback = json(r#"{
        "promptFeedback": {"blockReason": "SAFETY"}
    }"#);
    assert!(parse_chunk(&feedback).unwrap_err().contains("SAFETY"));

    let finish = json(r#"{
        "candidates": [{"finishReason": "PROHIBITED_CONTENT", "content": {"parts": []}}]
    }"#);
    assert!(parse_chunk(&finish).unwrap_err().contains("PROHIBITED_CONTENT"));

    let error = json(r#"{
        "error": {"code": 400, "message": "API key not valid", "status": "INVALID_ARGUMENT"}
    }"#);
    assert!(parse_chunk(&error).unwrap_err().contains("API key not valid"));
}

#[test]
fn thoughts_and_answers_are_each_put_together() {
    let value = json(
        r#"{"candidates": [{"content": {"parts": [
            {"text": "a", "thought": true}, {"text": "1"}, {"inlineData": {}},
            {"text": "b", "thought": true}, {"text": "2", "thought": false}
        ]}}]}"#,
    );
    assert_eq!(
        parse_chunk(&value).unwrap(),
        ParsedPayload { reasoning: Some("ab".to_string()), content: Some("12".to_string()) }
    );
    assert_eq!(
        parse_chunk(&json(r#"{"candidates": [{"finishReason": "SPII"}]}"#)).unwrap_err(),
        "Gemini 拒绝了该请求: SPII"
    );
}
