use bili_hardcore::config::OpenAiConfig;
use bili_hardcore::json::Json;
use bili_hardcore::llm::openai::{parse_payload, OpenAiClient};
use bili_hardcore::llm::providers::openai_chat::{
    api_dialect, build_request_body, ApiDialect, MAX_VISIBLE_OUTPUT_TOKENS,
};
use bili_hardcore::llm::shared::payload::ParsedPayload;
use bili_hardcore::llm::shared::stream::{
    fallback_response_format, inspect_body_signature, response_format_from_header,
    strip_utf8_bom_from_chunks, unrecognized_format_error, PrefixDecision, ResponseFormat,
    SniffStop,
};

fn json(text: &str) -> Json {
    Json::parse(text).unwrap()
}

/// The value at the end of a path of keys and places; null where there is none.
fn at<'a>(value: &'a Json, path: &[&str]) -> &'a Json {
    let mut value = value;
    for step in path {
        value = match value {
            Json::Array(items) => &items[step.parse::<usize>().unwrap()],
            _ => value.get(step).unwrap_or(&Json::Null),
        };
    }
    value
}

#[test]
fn openai_detects_api_dialect_by_host_and_model() {
    assert_eq!(
        api_dialect("https://api.openai.com/v1/chat/completions", "gpt-test"),
        ApiDialect::OpenAi
    );
    assert_eq!(
        api_dialect("https://API.X.AI:443/v1/chat/completions", "grok-4.6"),
        ApiDialect::XAi
    );
    assert_eq!(
        api_dialect("http://proxy.example/chat/completions", " Grok-4.6 "),
        ApiDialect::XAi
    );
    assert_eq!(
        api_dialect(
            "https://api.x.ai.example/v1/chat/completions",
            "other-model"
        ),
        ApiDialect::Extended
    );
    assert_eq!(
        api_dialect("http://proxy.example/chat/completions", "deepseek-chat"),
        ApiDialect::Extended
    );
}

#[test]
fn openai_xai_body_maps_reasoning_effort_and_limits_completion() {
    for (saved, expected) in [
        ("low", "low"),
        ("medium", "medium"),
        ("high", "high"),
        ("max", "xhigh"),
        ("xhigh", "xhigh"),
        ("edited-value", "high"),
    ] {
        let body = build_request_body(ApiDialect::XAi, "grok-4.6", "question", true, saved);
        assert_eq!(at(&body, &["reasoning_effort"]).as_str(), Some(expected));
        assert_eq!(at(&body, &["max_completion_tokens"]).as_u64(), Some(MAX_VISIBLE_OUTPUT_TOKENS));
    }

    let disabled = build_request_body(ApiDialect::XAi, "grok-4.6", "question", false, "max");
    assert_eq!(at(&disabled, &["reasoning_effort"]).as_str(), Some("low"));
    assert!(disabled.get("enable_thinking").is_none());
    assert!(disabled.get("thinking").is_none());
}

#[test]
fn openai_existing_dialects_keep_their_reasoning_fields_and_output_limit() {
    let openai = build_request_body(ApiDialect::OpenAi, "gpt-test", "question", true, "high");
    assert_eq!(at(&openai, &["reasoning_effort"]).as_str(), Some("high"));
    assert_eq!(at(&openai, &["max_completion_tokens"]).as_u64(), Some(MAX_VISIBLE_OUTPUT_TOKENS));
    assert!(openai.get("max_tokens").is_none());
    assert!(openai.get("enable_thinking").is_none());

    let extended = build_request_body(ApiDialect::Extended, "other", "question", false, "max");
    assert_eq!(at(&extended, &["enable_thinking"]).as_bool(), Some(false));
    assert_eq!(at(&extended, &["thinking", "type"]).as_str(), Some("disabled"));
    assert_eq!(at(&extended, &["reasoning_effort"]).as_str(), Some("none"));
    assert_eq!(at(&extended, &["max_tokens"]).as_u64(), Some(MAX_VISIBLE_OUTPUT_TOKENS));
    assert!(extended.get("max_completion_tokens").is_none());
}

#[test]
fn openai_detects_complete_json_and_sse_signatures() {
    assert_eq!(
        inspect_body_signature(br#"{"ok":true}"#),
        PrefixDecision::Detected(ResponseFormat::Json)
    );
    assert_eq!(
        inspect_body_signature(b" \r\ndata: {}\n\n"),
        PrefixDecision::Detected(ResponseFormat::Sse)
    );
    assert_eq!(
        inspect_body_signature(b"event: message\n"),
        PrefixDecision::Detected(ResponseFormat::Sse)
    );
    assert_eq!(
        inspect_body_signature(b": keep-alive\n"),
        PrefixDecision::Detected(ResponseFormat::Sse)
    );
}

#[test]
fn openai_waits_for_split_bom_whitespace_and_sse_markers() {
    for prefix in [
        &b""[..],
        &b" \r\n"[..],
        &b"\xef"[..],
        &b"\xef\xbb"[..],
        &b"d"[..],
        &b"data"[..],
        &b"ev"[..],
        &b"retr"[..],
    ] {
        assert_eq!(inspect_body_signature(prefix), PrefixDecision::NeedMore);
    }
    assert_eq!(
        inspect_body_signature(b"\xef\xbb\xbf \r\ndata:"),
        PrefixDecision::Detected(ResponseFormat::Sse)
    );
    assert_eq!(
        inspect_body_signature(b"\xef\xbb\xbf [1]"),
        PrefixDecision::Detected(ResponseFormat::Json)
    );
    assert_eq!(inspect_body_signature(b"<html>"), PrefixDecision::NoMatch);
}

#[test]
fn openai_body_signatures_override_headers_and_headers_are_strict_fallbacks() {
    assert_eq!(
        inspect_body_signature(b"data: {}\n\n"),
        PrefixDecision::Detected(ResponseFormat::Sse)
    );
    assert_eq!(
        response_format_from_header(Some("application/json; charset=utf-8")),
        Some(ResponseFormat::Json)
    );
    assert_eq!(
        response_format_from_header(Some(" Application/Problem+Json ; charset=utf-8")),
        Some(ResponseFormat::Json)
    );
    assert_eq!(
        response_format_from_header(Some("TEXT/EVENT-STREAM")),
        Some(ResponseFormat::Sse)
    );
    assert_eq!(response_format_from_header(Some("text/plain")), None);
    assert_eq!(response_format_from_header(None), None);
    assert_eq!(
        fallback_response_format(
            Some("application/json"),
            None,
            b" ",
            SniffStop::EndOfResponse,
            "key"
        ),
        Ok(ResponseFormat::Json)
    );
    assert!(
        fallback_response_format(
            Some("application/json"),
            Some("zstd"),
            b"binary",
            SniffStop::Mismatch,
            "key"
        )
        .is_err()
    );
    assert!(
        fallback_response_format(
            Some("text/plain"),
            None,
            b"plain text",
            SniffStop::Mismatch,
            "key"
        )
        .is_err()
    );
}

#[test]
fn openai_strips_only_one_leading_utf8_bom_across_chunks() {
    let mut chunks = vec![
        bytes::Bytes::from_static(b"\xef"),
        bytes::Bytes::from_static(b"\xbb"),
        bytes::Bytes::from_static(b"\xbf {\"choices\":[]}"),
    ];
    strip_utf8_bom_from_chunks(&mut chunks);
    let json: Vec<u8> = chunks
        .iter()
        .flat_map(|chunk| chunk.iter().copied())
        .collect();
    assert_eq!(json, b" {\"choices\":[]}");
    assert!(serde_json::from_slice::<serde_json::Value>(&json).is_ok());
}

#[test]
fn openai_unrecognized_format_diagnostics_are_redacted_and_actionable() {
    let key = "secret-test-key";
    let error = unrecognized_format_error(
        Some("text/plain"),
        Some("zstd"),
        format!("<html>Bearer {key}\nblocked</html>").as_bytes(),
        SniffStop::Mismatch,
        key,
    );
    assert!(error.contains("不支持的 Content-Encoding"));
    assert!(error.contains("Content-Type=text/plain"));
    assert!(error.contains("Content-Encoding=zstd"));
    assert!(error.contains("\\n"));
    assert!(!error.contains(key));
}

#[test]
fn openai_parses_synchronous_message_content() {
    let value = json(r#"{
        "choices": [{"message": {"content": "3"}}]
    }"#);
    assert_eq!(
        parse_payload(&value),
        Ok(Some(ParsedPayload {
            reasoning: None,
            content: Some("3".to_string())
        }))
    );
}

#[test]
fn openai_parses_reasoning_and_text_part_arrays() {
    let value = json(r#"{
        "choices": [{"message": {
            "reasoning_content": "分析",
            "content": [
                {"type": "text", "text": "答案"},
                {"type": "output_text", "text": "是2"}
            ]
        }}]
    }"#);
    assert_eq!(
        parse_payload(&value),
        Ok(Some(ParsedPayload {
            reasoning: Some("分析".to_string()),
            content: Some("答案是2".to_string())
        }))
    );
}

#[test]
fn openai_parses_stream_delta_and_message_fallback() {
    let delta = json(r#"{"choices": [{"delta": {"content": "1"}}]}"#);
    let message = json(r#"{"choices": [{"message": {"content": "4"}}]}"#);
    assert_eq!(
        parse_payload(&delta).unwrap().unwrap().content.as_deref(),
        Some("1")
    );
    assert_eq!(
        parse_payload(&message).unwrap().unwrap().content.as_deref(),
        Some("4")
    );
}

#[test]
fn openai_empty_choices_and_api_errors_are_not_content() {
    assert_eq!(parse_payload(&json(r#"{"choices": []}"#)), Ok(None));
    assert!(
        parse_payload(&json(r#"{"error": {"message": "bad request"}}"#))
            .unwrap_err()
            .contains("bad request")
    );
    assert!(
        parse_payload(&json(r#"{
            "choices": [{"message": {"content": {"unsupported": true}}}]
        }"#))
        .is_err()
    );
}

#[test]
fn any_error_value_is_an_error() {
    assert_eq!(
        parse_payload(&json(r#"{"error": null, "choices": []}"#)).unwrap_err(),
        "LLM API 返回错误: 未知 API 错误"
    );
    assert_eq!(
        parse_payload(&json(r#"{"error": "quota"}"#)).unwrap_err(),
        "LLM API 返回错误: quota"
    );
}

#[test]
fn the_endpoint_of_the_configuration_is_asked() {
    let client = OpenAiClient::new(&OpenAiConfig {
        base_url: "https://api.x.ai/v1/chat/completions/".to_string(),
        model: "grok-4".to_string(),
        api_key: "k1".to_string(),
        enable_thinking: true,
        reasoning_effort: String::new(),
    });
    let (request, _) = client.ask_stream("1+1", &["2".to_string()], &[]);
    assert_eq!(request.url, "https://api.x.ai/v1/chat/completions");
    assert_eq!(at(&request.body, &["reasoning_effort"]).as_str(), Some("high"));
    assert_eq!(request.headers[1], ("Authorization".to_string(), "Bearer k1".to_string()));
    assert!(at(&request.body, &["messages", "0", "content"])
        .as_str()
        .unwrap()
        .ends_with("题目:1+1\n答案:[\"2\"]"));
}
