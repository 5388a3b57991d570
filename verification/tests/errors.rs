use bili_hardcore::json::Json;
use bili_hardcore::llm::shared::errors::{describe, extract_api_error, format_api_error};

fn json(text: &str) -> Json {
    Json::parse(text).unwrap()
}

#[test]
fn extracts_messages_from_all_three_error_shapes() {
    let openai = json(r#"{"error": {"message": "bad request", "code": "x"}}"#);
    assert_eq!(extract_api_error(&openai).as_deref(), Some("bad request"));

    let claude = json(
        r#"{
            "type": "error",
            "error": {"type": "invalid_request_error", "message": "max_tokens too large"}
        }"#,
    );
    assert_eq!(extract_api_error(&claude).as_deref(), Some("max_tokens too large"));

    let gemini = json(
        r#"{
            "error": {"code": 400, "message": "API key not valid", "status": "INVALID_ARGUMENT"}
        }"#,
    );
    assert_eq!(extract_api_error(&gemini).as_deref(), Some("API key not valid"));
}

#[test]
fn falls_back_to_status_or_code_and_ignores_non_errors() {
    let status_only = json(r#"{"error": {"status": "RESOURCE_EXHAUSTED"}}"#);
    assert_eq!(
        extract_api_error(&status_only).as_deref(),
        Some("RESOURCE_EXHAUSTED")
    );

    let code_only = json(r#"{"error": {"code": 429}}"#);
    assert_eq!(extract_api_error(&code_only).as_deref(), Some("429"));

    let plain = json(r#"{"error": "quota exceeded"}"#);
    assert_eq!(extract_api_error(&plain).as_deref(), Some("quota exceeded"));

    assert_eq!(extract_api_error(&json(r#"{"choices": []}"#)), None);
}

#[test]
fn unreadable_errors_say_nothing() {
    assert_eq!(describe(&json("null")), None);
    assert_eq!(describe(&json("[]")), None);
    assert_eq!(describe(&json("{}")), None);
    assert_eq!(describe(&json(r#"{"code": -1}"#)), None);
    assert_eq!(describe(&json(r#"{"code": "x"}"#)), None);
    assert_eq!(format_api_error("LLM", "boom"), "LLM API 返回错误: boom");
}
