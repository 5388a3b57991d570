use bili_hardcore::json::Json;
use bili_hardcore::llm::providers::openai_responses::{
    build_request_body, is_xai, parse_event, reasoning_effort, terminal_error, text_from_response,
    MAX_VISIBLE_OUTPUT_TOKENS,
};
use bili_hardcore::llm::shared::payload::ParsedPayload;

fn json(text: &str) -> Json {
    Json::parse(text).unwrap()
}

/// The value at the end of a path of keys and places; null where there is none.
fn at<'a>(value: &'a Json, path: &[&str]) -> &'a Json {
    let mut value = value;
    for step in path {
        value = match value {
            Json::Array(items) => &items[step.parse::<usize>().unwrap()],
            _ => value.get(step).unwrap_or(&Json::Null),
        };
    }
    value
}

#[test]
fn request_body_uses_input_and_responses_reasoning_fields() {
    let body = build_request_body("gpt-test", "prompt", true, "high", false);
    assert_eq!(at(&body, &["model"]).as_str(), Some("gpt-test"));
    assert_eq!(at(&body, &["input"]).as_str(), Some("prompt"));
    assert_eq!(at(&body, &["stream"]).as_bool(), Some(true));
    assert_eq!(at(&body, &["max_output_tokens"]).as_u64(), Some(MAX_VISIBLE_OUTPUT_TOKENS));
    assert_eq!(at(&body, &["reasoning", "effort"]).as_str(), Some("high"));
    assert_eq!(at(&body, &["reasoning", "summary"]).as_str(), Some("auto"));
    assert_eq!(at(&body, &["store"]).as_bool(), Some(false));
    assert!(body.get("messages").is_none());
}

#[test]
fn openai_effort_clamps_project_levels_to_responses_values() {
    assert_eq!(reasoning_effort(false, true, "minimal"), "minimal");
    assert_eq!(reasoning_effort(false, true, "low"), "low");
    assert_eq!(reasoning_effort(false, true, "medium"), "medium");
    assert_eq!(reasoning_effort(false, true, "high"), "high");
    assert_eq!(reasoning_effort(false, true, "max"), "high");
    assert_eq!(reasoning_effort(false, true, "xhigh"), "high");
    assert_eq!(reasoning_effort(false, true, "手改的值"), "high");
    assert_eq!(reasoning_effort(false, false, "high"), "minimal");
    let body = build_request_body("gpt-test", "prompt", false, "max", false);
    assert_eq!(at(&body, &["reasoning", "effort"]).as_str(), Some("minimal"));
    assert!(
        at(&body, &["reasoning"]).get("summary").is_none(),
        "不思考时没有摘要可展示，整个字段省掉"
    );
}

#[test]
fn xai_gets_its_own_effort_scale_and_no_summary() {
    assert_eq!(reasoning_effort(true, false, "high"), "low");
    assert_eq!(reasoning_effort(true, false, "max"), "low");
    assert_eq!(reasoning_effort(true, true, "minimal"), "low");
    assert_eq!(reasoning_effort(true, true, "max"), "xhigh");
    assert_eq!(reasoning_effort(true, true, "xhigh"), "xhigh");
    assert_eq!(reasoning_effort(true, true, "high"), "high");
    assert_eq!(reasoning_effort(true, true, "medium"), "medium");
    assert_eq!(reasoning_effort(true, true, "low"), "low");
    assert_eq!(reasoning_effort(true, true, "手改的值"), "high");

    let thinking = build_request_body("grok-4.6", "prompt", true, "max", true);
    assert_eq!(at(&thinking, &["reasoning", "effort"]).as_str(), Some("xhigh"));
    assert!(at(&thinking, &["reasoning"]).get("summary").is_none());
    let plain = build_request_body("gpt-test", "prompt", false, "high", true);
    assert_eq!(at(&plain, &["reasoning", "effort"]).as_str(), Some("low"));
    assert!(at(&plain, &["reasoning"]).get("summary").is_none());
}

#[test]
fn detects_xai_by_host_and_by_model_for_relays() {
    assert!(is_xai("https://api.x.ai/v1/responses", "grok-4.6"));
    assert!(is_xai("http://proxy.example/v1/responses", " Grok-4.6 "));
    assert!(!is_xai("https://api.x.ai.example/v1/responses", "gpt-test"));
    assert!(!is_xai("https://api.openai.com/v1/responses", "gpt-test"));
}

#[test]
fn parses_text_and_reasoning_deltas() {
    let text = json(r#"{
        "type": "response.output_text.delta",
        "delta": "3"
    }"#);
    assert_eq!(
        parse_event(&text).unwrap(),
        ParsedPayload {
            reasoning: None,
            content: Some("3".to_string())
        }
    );

    let reasoning = json(r#"{
        "type": "response.reasoning_summary_text.delta",
        "delta": "分析中"
    }"#);
    assert_eq!(
        parse_event(&reasoning).unwrap(),
        ParsedPayload {
            reasoning: Some("分析中".to_string()),
            content: None
        }
    );

    let created = json(r#"{"type": "response.created", "delta": "x"}"#);
    assert_eq!(parse_event(&created).unwrap(), ParsedPayload::default());
}

#[test]
fn extracts_final_text_from_completed_output() {
    let value = json(r#"{
        "type": "response.completed",
        "response": {
            "output": [
                {"type": "reasoning", "summary": [{"type": "summary_text", "text": "想"}]},
                {
                    "type": "message",
                    "content": [{"type": "output_text", "text": "答"}]
                },
                {
                    "type": "message",
                    "content": [{"type": "output_text", "text": "案2"}]
                }
            ]
        }
    }"#);
    assert_eq!(text_from_response(at(&value, &["response"])).as_deref(), Some("答案2"));
    assert_eq!(parse_event(&value).unwrap(), ParsedPayload::default());
}

#[test]
fn failed_and_incomplete_events_surface_errors() {
    let failed = json(r#"{
        "type": "response.failed",
        "response": {"error": {"message": "boom"}}
    }"#);
    assert!(parse_event(&failed).unwrap_err().contains("boom"));

    let incomplete = json(r#"{
        "type": "response.incomplete",
        "response": {"incomplete_details": {"reason": "max_output_tokens"}}
    }"#);
    assert!(
        parse_event(&incomplete)
            .unwrap_err()
            .contains("max_output_tokens")
    );

    let raw_error = json(r#"{"type": "error", "message": "stream interrupted"}"#);
    assert!(parse_event(&raw_error).is_err());
}

#[test]
fn a_response_without_parts_has_no_text() {
    let value = json(r#"{"output": [{"type": "message"}]}"#);
    assert_eq!(text_from_response(&value), None);
    assert_eq!(text_from_response(&json("{}")), None);
    assert_eq!(
        terminal_error(&json(r#"{"type": "error"}"#)).as_deref(),
        Some("OpenAI Responses 响应未完成: 未知原因")
    );
    assert_eq!(terminal_error(&json(r#"{"type": "response.created"}"#)), None);
}
