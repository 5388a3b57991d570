use bili_hardcore::llm::shared::stream::{
    fallback_response_format, format_event_stream_error, has_unsupported_content_encoding,
    inspect_body_signature, read_error_message, response_format_from_header, single_line_preview,
    strip_utf8_bom_from_chunks, unrecognized_format_error, PrefixDecision, ResponseFormat,
    SniffStop, StreamError,
};
use bytes::Bytes;

#[test]
fn stream_detects_complete_json_and_sse_signatures() {
    assert_eq!(
        inspect_body_signature(br#"{"ok":true}"#),
        PrefixDecision::Detected(ResponseFormat::Json)
    );
    assert_eq!(
        inspect_body_signature(b" \r\ndata: {}\n\n"),
        PrefixDecision::Detected(ResponseFormat::Sse)
    );
    assert_eq!(
        inspect_body_signature(b"event: message\n"),
        PrefixDecision::Detected(ResponseFormat::Sse)
    );
    assert_eq!(
        inspect_body_signature(b": keep-alive\n"),
        PrefixDecision::Detected(ResponseFormat::Sse)
    );
}

#[test]
fn stream_waits_for_split_bom_whitespace_and_sse_markers() {
    for prefix in [
        &b""[..],
        &b" \r\n"[..],
        &b"\xef"[..],
        &b"\xef\xbb"[..],
        &b"d"[..],
        &b"data"[..],
        &b"ev"[..],
        &b"retr"[..],
    ] {
        assert_eq!(inspect_body_signature(prefix), PrefixDecision::NeedMore);
    }
    assert_eq!(
        inspect_body_signature(b"\xef\xbb\xbf \r\ndata:"),
        PrefixDecision::Detected(ResponseFormat::Sse)
    );
    assert_eq!(
        inspect_body_signature(b"\xef\xbb\xbf [1]"),
        PrefixDecision::Detected(ResponseFormat::Json)
    );
    assert_eq!(inspect_body_signature(b"<html>"), PrefixDecision::NoMatch);
}

#[test]
fn stream_body_signatures_override_headers_and_headers_are_strict_fallbacks() {
    assert_eq!(
        inspect_body_signature(b"data: {}\n\n"),
        PrefixDecision::Detected(ResponseFormat::Sse)
    );
    assert_eq!(
        response_format_from_header(Some("application/json; charset=utf-8")),
        Some(ResponseFormat::Json)
    );
    assert_eq!(
        response_format_from_header(Some(" Application/Problem+Json ; charset=utf-8")),
        Some(ResponseFormat::Json)
    );
    assert_eq!(
        response_format_from_header(Some("TEXT/EVENT-STREAM")),
        Some(ResponseFormat::Sse)
    );
    assert_eq!(response_format_from_header(Some("text/plain")), None);
    assert_eq!(response_format_from_header(None), None);
    assert_eq!(
        fallback_response_format(
            Some("application/json"),
            None,
            b" ",
            SniffStop::EndOfResponse,
            "key"
        ),
        Ok(ResponseFormat::Json)
    );
    assert!(
        fallback_response_format(
            Some("application/json"),
            Some("zstd"),
            b"binary",
            SniffStop::Mismatch,
            "key"
        )
        .is_err()
    );
    assert!(
        fallback_response_format(
            Some("text/plain"),
            None,
            b"plain text",
            SniffStop::Mismatch,
            "key"
        )
        .is_err()
    );
}

#[test]
fn stream_strips_only_one_leading_utf8_bom_across_chunks() {
    let mut chunks = vec![
        Bytes::from_static(b"\xef"),
        Bytes::from_static(b"\xbb"),
        Bytes::from_static(b"\xbf {\"choices\":[]}"),
    ];
    strip_utf8_bom_from_chunks(&mut chunks);
    let json: Vec<u8> = chunks
        .iter()
        .flat_map(|chunk| chunk.iter().copied())
        .collect();
    assert_eq!(json, b" {\"choices\":[]}");
    assert!(serde_json::from_slice::<serde_json::Value>(&json).is_ok());
}

#[test]
fn stream_unrecognized_format_diagnostics_are_redacted_and_actionable() {
    let key = "secret-test-key";
    let error = unrecognized_format_error(
        Some("text/plain"),
        Some("zstd"),
        format!("<html>Bearer {key}\nblocked</html>").as_bytes(),
        SniffStop::Mismatch,
        key,
    );
    assert!(error.contains("不支持的 Content-Encoding"));
    assert!(error.contains("Content-Type=text/plain"));
    assert!(error.contains("Content-Encoding=zstd"));
    assert!(error.contains("\\n"));
    assert!(!error.contains(key));
}

#[test]
fn previews_stay_on_one_line() {
    assert_eq!(single_line_preview("a\n\t\"k1\"", "k1", 100), "a\\n\\t\\\"[REDACTED]\\\"");
}

#[test]
fn only_plain_encodings_are_supported() {
    assert!(!has_unsupported_content_encoding(None));
    assert!(!has_unsupported_content_encoding(Some(" Identity , ,identity")));
    assert!(has_unsupported_content_encoding(Some("identity, gzip")));
}

#[test]
fn each_reason_to_stop_is_named() {
    for (stop, text) in [
        (SniffStop::Mismatch, "正文前缀不匹配 JSON/SSE"),
        (SniffStop::EndOfResponse, "响应已结束"),
        (SniffStop::Limit, "已达到 8 KiB 探测上限"),
    ] {
        assert_eq!(
            unrecognized_format_error(None, None, b"x\xff", stop, "k"),
            format!("无法识别 LLM 响应格式; Content-Type=<缺失>; Content-Encoding=<缺失>; {text}; 响应摘要=x\u{fffd}")
        );
    }
}

#[test]
fn refusals_name_their_status() {
    assert_eq!(
        read_error_message(429, r#"{"error": {"message": "slow down"}}"#, "Anthropic", "k"),
        "Anthropic 请求失败 (HTTP 429 Too Many Requests): slow down"
    );
    assert_eq!(
        read_error_message(599, "plain k", "LLM", "k"),
        "LLM 请求失败 (HTTP 599 <unknown status code>): plain [REDACTED]"
    );
}

#[test]
fn stream_errors_are_told_apart() {
    let decode = StreamError {
        shown: "bad".to_string(),
        transport: None,
        messages: vec!["bad utf8".to_string(), "at http://a".to_string()],
    };
    assert_eq!(
        format_event_stream_error(&decode, "Gemini", "k"),
        "读取 Gemini SSE 响应失败 [响应解码]: bad utf8 -> at [URL REDACTED]"
    );
}

#[test]
fn a_mark_is_dropped_wherever_the_chunks_are_cut() {
    let mut chunks = vec![Bytes::from_static(b""), Bytes::from_static(b"\xef\xbb\xbfab"), Bytes::from_static(b"c")];
    strip_utf8_bom_from_chunks(&mut chunks);
    assert_eq!(chunks.concat(), b"abc");
}

#[test]
fn complaints_stay_on_one_line() {
    for (content_type, encoding, prefix) in [
        (Some("text\n/plain"), None, &b"x"[..]),
        (None, Some("zst\nd"), b"x"),
        (None, None, b"x\ny\n"),
    ] {
        let text =
            unrecognized_format_error(content_type, encoding, prefix, SniffStop::Mismatch, "k");
        assert!(!text.contains('\n'));
        assert!(text.contains("\\n"));
    }
    let plain = unrecognized_format_error(None, None, b"xy", SniffStop::Mismatch, "k");
    assert!(!plain.contains("\\n"));
}
