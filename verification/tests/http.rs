use bili_hardcore::llm::shared::http::{
    classify_reqwest_error, format_reqwest_error, redact, redact_secrets, redact_urls,
    safe_error_chain, safe_preview, send_error, ReqwestErrorClass, TransportError,
};
use bili_hardcore::llm::LlmChunk;

fn transport(messages: &[&str]) -> TransportError {
    TransportError {
        timeout: false,
        connect: false,
        builder: false,
        request: false,
        decode: false,
        body: false,
        messages: messages.iter().map(|text| text.to_string()).collect(),
    }
}

#[test]
fn redacts_keys_urls_and_truncates_unicode_safely() {
    let key = "secret-test-key";
    let message = "错误：Bearer secret-test-key；密钥 secret-test-key；访问 https://api.example.test/v1?key=secret-test-key 中文内容";
    let preview = safe_preview(message, key, 200);
    assert!(!preview.contains(key));
    assert!(!preview.contains("https://api.example.test"));
    assert!(preview.contains("[REDACTED]"));
    assert!(preview.contains("[URL REDACTED]"));

    let truncated = safe_preview("错误：中文内容", key, 4);
    assert_eq!(truncated, "错误：中…");
}

#[test]
fn an_empty_key_redacts_nothing() {
    assert_eq!(redact_secrets("Bearer  and more", ""), "Bearer  and more");
    assert_eq!(redact_secrets("Bearer k, k", "k"), "Bearer [REDACTED], [REDACTED]");
}

#[test]
fn every_url_is_redacted_up_to_its_end() {
    assert_eq!(redact_urls("http://a.b/c"), "[URL REDACTED]");
    assert_eq!(
        redact_urls("see (https://a.b/c) and \"http://d\"; done"),
        "see ([URL REDACTED]) and \"[URL REDACTED]\"; done"
    );
    assert_eq!(redact_urls("no address here"), "no address here");
    assert_eq!(redact("https://a/?k=key key", "key"), "[URL REDACTED]] [REDACTED]");
}

#[test]
fn a_preview_is_cut_only_where_it_is_too_long() {
    assert_eq!(safe_preview("abcd", "", 4), "abcd");
    assert_eq!(safe_preview("abcde", "", 4), "abcd…");
    assert_eq!(safe_preview("", "", 0), "");
    assert_eq!(safe_preview("a", "", 0), "…");
}

#[test]
fn transport_errors_are_classified_in_order() {
    let mut error = transport(&["boom"]);
    assert_eq!(classify_reqwest_error(&error), ReqwestErrorClass::Other);
    error.body = true;
    assert_eq!(classify_reqwest_error(&error), ReqwestErrorClass::ResponseBody);
    error.decode = true;
    assert_eq!(classify_reqwest_error(&error), ReqwestErrorClass::Decode);
    error.request = true;
    assert_eq!(classify_reqwest_error(&error), ReqwestErrorClass::Request);
    error.request = false;
    error.builder = true;
    assert_eq!(classify_reqwest_error(&error), ReqwestErrorClass::Request);
    error.connect = true;
    assert_eq!(classify_reqwest_error(&error), ReqwestErrorClass::Connect);
    error.timeout = true;
    assert_eq!(classify_reqwest_error(&error), ReqwestErrorClass::Timeout);
    assert_eq!(ReqwestErrorClass::Timeout.label(), "超时");
    assert_eq!(ReqwestErrorClass::Other.label(), "其他");
}

#[test]
fn error_chains_are_joined_and_redacted() {
    let error = transport(&["request to https://a.b failed", "key k1 refused"]);
    assert_eq!(
        safe_error_chain(&error.messages, "k1"),
        "request to [URL REDACTED] failed -> key [REDACTED] refused"
    );
    assert_eq!(
        format_reqwest_error("LLM 请求失败", &error, "k1"),
        "LLM 请求失败 [其他]: request to [URL REDACTED] failed -> key [REDACTED] refused"
    );
}

#[test]
fn errors_are_reported_redacted() {
    let mut chunks = Vec::new();
    send_error(&mut chunks, "k1", "k1 at http://a");
    assert_eq!(
        chunks,
        vec![LlmChunk::Error("[REDACTED] at [URL REDACTED]".to_string())]
    );
}

#[test]
fn a_harmless_message_is_kept() {
    let message = "Bearer of bad news: http:/ is no address, nor is https//x";
    assert_eq!(redact(message, "secret"), message);
}
