use bili_hardcore::config::LlmConfig;
use bili_hardcore::llm::client::Asked;
use bili_hardcore::llm::exchange::{Adapter, Event, Exchange, Stage, Want};
use bili_hardcore::llm::jev_exchange::{JevEvent, JevExchange, JevWant};
use bili_hardcore::llm::shared::http::TransportError;
use bili_hardcore::llm::shared::stream::StreamError;
use bili_hardcore::llm::{LlmChunk, LlmClient, Protocol, QuizRequest};
use bytes::Bytes;

fn head(code: u16) -> Event {
    Event::Head {
        code,
        content_type: None,
        content_encoding: None,
    }
}

fn failure(text: &str) -> TransportError {
    TransportError {
        timeout: true,
        connect: false,
        builder: false,
        request: false,
        decode: false,
        body: false,
        messages: vec![text.to_string()],
    }
}

fn error(text: &str) -> Vec<LlmChunk> {
    vec![LlmChunk::Error(text.to_string())]
}

/// Runs a JSON reply through an exchange, up to and with its end.
fn reply(adapter: Adapter, body: &'static str) -> Vec<LlmChunk> {
    let mut exchange = Exchange::open(adapter, "k1");
    assert!(matches!(exchange.step(head(200)).want, Want::Chunk));
    let mut chunks = Vec::new();
    let step = exchange.step(Event::Chunk(Some(Bytes::from_static(body.as_bytes()))));
    chunks.extend(step.chunks);
    if let Want::Chunk = step.want {
        let step = exchange.step(Event::Chunk(None));
        chunks.extend(step.chunks);
        if let Want::Settle = step.want {
            chunks.extend(exchange.step(Event::Settled).chunks);
        }
    }
    chunks
}

/// Runs a stream of events through an exchange, up to and with its end.
fn stream(adapter: Adapter, events: &[&str]) -> Vec<LlmChunk> {
    let mut exchange = Exchange::open(adapter, "k1");
    exchange.step(head(200));
    let step = exchange.step(Event::Chunk(Some(Bytes::from_static(b"data: x"))));
    match step.want {
        Want::Events(chunks) => assert_eq!(chunks, vec![Bytes::from_static(b"data: x")]),
        other => panic!("{other:?}"),
    }
    let mut chunks = Vec::new();
    for event in events {
        let step = exchange.step(Event::Sse(event.to_string()));
        chunks.extend(step.chunks);
        match step.want {
            Want::Event => {}
            Want::Settle => {
                chunks.extend(exchange.step(Event::Settled).chunks);
                return chunks;
            }
            _ => return chunks,
        }
    }
    exchange.step(Event::SseEnd);
    chunks.extend(exchange.step(Event::Settled).chunks);
    chunks
}

fn text(chunks: &[(&str, &str)]) -> Vec<LlmChunk> {
    chunks
        .iter()
        .map(|(kind, text)| match *kind {
            "thinking" => LlmChunk::Thinking(text.to_string()),
            "content" => LlmChunk::Content(text.to_string()),
            "done" => LlmChunk::Done(text.to_string()),
            _ => LlmChunk::Error(text.to_string()),
        })
        .collect()
}

#[test]
fn whole_replies_are_reported_and_done_with() {
    assert_eq!(
        reply(
            Adapter::OpenAiChat,
            r#"{"choices": [{"message": {"reasoning": "想", "content": "3"}}]}"#
        ),
        text(&[("thinking", "想"), ("content", "3"), ("done", "3")])
    );
    assert_eq!(
        reply(
            Adapter::OpenAiResponses,
            r#"{"output": [{"content": [{"type": "output_text", "text": "2"}]}]}"#
        ),
        text(&[("content", "2"), ("done", "2")])
    );
    assert_eq!(
        reply(Adapter::Claude, r#"{"content": [{"type": "text", "text": "1"}]}"#),
        text(&[("content", "1"), ("done", "1")])
    );
    assert_eq!(
        reply(
            Adapter::Gemini,
            r#"{"candidates": [{"content": {"parts": [{"text": "4"}]}}]}"#
        ),
        text(&[("content", "4"), ("done", "4")])
    );
    assert_eq!(
        reply(
            Adapter::GeminiInteractions,
            r#"{"output_text": "3", "steps": [{"type": "thought", "text": "想"}]}"#
        ),
        text(&[("thinking", "想"), ("content", "3"), ("done", "3")])
    );
}

#[test]
fn streams_add_up_to_what_is_done() {
    assert_eq!(
        stream(
            Adapter::OpenAiChat,
            &[
                r#"{"choices": [{"delta": {"content": "1"}}]}"#,
                r#"{"choices": []}"#,
                r#"{"choices": [{"delta": {"content": "2"}}]}"#,
                "[DONE]",
                "never read",
            ]
        ),
        text(&[("content", "1"), ("content", "2"), ("done", "12")])
    );
    assert_eq!(
        stream(
            Adapter::Claude,
            &[r#"{"type": "content_block_delta", "delta": {"type": "text_delta", "text": "2"}}"#]
        ),
        text(&[("content", "2"), ("done", "2")])
    );
}

#[test]
fn a_completed_response_stands_in_for_missing_deltas() {
    let completed = r#"{"type": "response.completed", "response": {"output": [
        {"content": [{"type": "output_text", "text": "7"}]}]}}"#;
    assert_eq!(
        stream(Adapter::OpenAiResponses, &[completed]),
        text(&[("content", "7"), ("done", "7")])
    );
    assert_eq!(
        stream(
            Adapter::OpenAiResponses,
            &[
                r#"{"type": "response.output_text.delta", "delta": "8"}"#,
                completed
            ]
        ),
        text(&[("content", "8"), ("done", "8")])
    );
}

#[test]
fn interactions_keep_the_last_of_each() {
    assert_eq!(
        stream(
            Adapter::GeminiInteractions,
            &[
                r#"{"output_text": "1", "steps": [{"type": "thought", "text": "a"}]}"#,
                r#"{"output_text": " "}"#,
                r#"{"output_text": "2"}"#,
            ]
        ),
        text(&[("thinking", "a"), ("content", "2"), ("done", "2")])
    );
}

#[test]
fn the_sentinel_is_an_event_like_others_elsewhere() {
    for adapter in [Adapter::Claude, Adapter::Gemini, Adapter::GeminiInteractions] {
        match &stream(adapter, &["[DONE]"])[..] {
            [LlmChunk::Error(message)] => {
                assert!(message.starts_with(&format!("解析 {} SSE 事件 JSON 失败: ", adapter.label())))
            }
            other => panic!("{other:?}"),
        }
    }
}

#[test]
fn a_blank_answer_is_an_error() {
    assert_eq!(
        stream(Adapter::OpenAiChat, &[r#"{"choices": [{"delta": {"content": " \n"}}]}"#]),
        text(&[("content", " \n"), ("error", "LLM 响应结束但未包含可用正文")])
    );
    assert_eq!(
        reply(Adapter::GeminiInteractions, "{}"),
        error("Gemini Interactions 响应结束但未包含可用正文")
    );
    assert_eq!(
        reply(Adapter::Gemini, "{}"),
        error("Gemini 响应结束但未包含可用正文")
    );
}

#[test]
fn replies_without_an_answer_say_what_is_missing() {
    assert_eq!(
        reply(Adapter::OpenAiChat, "{}"),
        error("LLM JSON 响应不包含 choices[0] 内容")
    );
    assert_eq!(
        reply(Adapter::OpenAi, r#"{"error": 3}"#),
        error("LLM API 返回错误: 未知 API 错误")
    );
    assert_eq!(
        reply(Adapter::OpenAiResponses, "{}"),
        error("OpenAI Responses JSON 响应不包含 output_text")
    );
    assert_eq!(
        reply(Adapter::Claude, "{}"),
        error("Anthropic JSON 响应不包含文本内容")
    );
}

#[test]
fn a_reply_that_is_no_json_is_quoted() {
    match &reply(Adapter::Claude, "{\"k1\": http://a }")[..] {
        [LlmChunk::Error(message)] => {
            assert!(message.starts_with("解析 Anthropic JSON 响应失败: "));
            assert!(message.ends_with("; 响应摘要: {\"[REDACTED]\": [URL REDACTED] }"));
        }
        other => panic!("{other:?}"),
    }
}

#[test]
fn a_refusal_is_told_with_its_body() {
    let refused = |adapter: Adapter, body: &str| {
        let mut exchange = Exchange::open(adapter, "k1");
        assert!(matches!(exchange.step(head(401)).want, Want::ErrorBody));
        let step = exchange.step(Event::ErrorBody(body.to_string()));
        assert!(matches!(step.want, Want::Stop));
        step.chunks
    };
    let body = r#"{"error": {"message": "no"}}"#;
    assert_eq!(
        refused(Adapter::Claude, body),
        error("Anthropic 请求失败 (HTTP 401 Unauthorized): no")
    );
    assert_eq!(
        refused(Adapter::OpenAi, body),
        error("LLM 请求失败 (HTTP 401 Unauthorized): {\"error\": {\"message\": \"no\"}}")
    );
}

#[test]
fn failures_of_the_transport_end_an_exchange() {
    let mut exchange = Exchange::open(Adapter::Gemini, "k1");
    let step = exchange.step(Event::SendFailed(failure("k1 lost")));
    assert_eq!(step.chunks, error("Gemini 请求失败 [超时]: [REDACTED] lost"));
    assert!(matches!(exchange.stage, Stage::Closed));

    let mut exchange = Exchange::open(Adapter::Gemini, "k1");
    exchange.step(head(500));
    let step = exchange.step(Event::ErrorBodyFailed(failure("x")));
    assert_eq!(step.chunks, error("读取 Gemini 错误响应失败 [超时]: x"));

    let mut exchange = Exchange::open(Adapter::Gemini, "k1");
    exchange.step(head(200));
    let step = exchange.step(Event::ChunkFailed(failure("x")));
    assert_eq!(step.chunks, error("读取 Gemini 响应失败 [超时]: x"));

    let mut exchange = Exchange::open(Adapter::Gemini, "k1");
    exchange.step(head(200));
    exchange.step(Event::Chunk(Some(Bytes::from_static(b"{"))));
    let step = exchange.step(Event::ChunkFailed(failure("x")));
    assert_eq!(step.chunks, error("读取 Gemini JSON 响应失败 [超时]: x"));

    let broken = || {
        Event::SseFailed(StreamError {
            shown: "broken".to_string(),
            transport: Some(failure("cut")),
            messages: vec!["cut".to_string()],
        })
    };
    for (adapter, message) in [
        (Adapter::Gemini, "读取 Gemini SSE 响应失败 [超时]: cut"),
        (Adapter::GeminiInteractions, "读取 Gemini Interactions SSE 响应失败: broken"),
    ] {
        let mut exchange = Exchange::open(adapter, "k1");
        exchange.step(head(200));
        exchange.step(Event::Chunk(Some(Bytes::from_static(b":"))));
        assert_eq!(exchange.step(broken()).chunks, error(message));
    }
}

#[test]
fn a_task_that_is_called_off_reports_nothing_more() {
    let mut exchange = Exchange::open(Adapter::OpenAiChat, "k1");
    exchange.step(head(200));
    exchange.step(Event::Chunk(Some(Bytes::from_static(b"data: x"))));
    let step = exchange.step(Event::Sse(r#"{"choices": [{"delta": {"content": "1"}}]}"#.to_string()));
    assert_eq!(step.chunks.len(), 1);
    exchange.step(Event::SseEnd);
    let step = exchange.step(Event::Cancelled);
    assert!(step.chunks.is_empty());
    assert!(matches!(step.want, Want::Stop));
    assert!(matches!(exchange.stage, Stage::Closed));
}

#[test]
fn a_body_is_read_across_its_cuts() {
    let mut exchange = Exchange::open(Adapter::OpenAiChat, "k1");
    exchange.step(head(200));
    for part in [&b"\xef\xbb"[..], b"\xbf {\"choices\": [{\"message\": ", b"{\"content\": \"5\"}}]}"] {
        let step = exchange.step(Event::Chunk(Some(Bytes::from_static(part))));
        assert!(step.chunks.is_empty() && matches!(step.want, Want::Chunk));
    }
    let step = exchange.step(Event::Chunk(None));
    assert_eq!(step.chunks, text(&[("content", "5")]));

    let mut exchange = Exchange::open(Adapter::OpenAiChat, "k1");
    exchange.step(head(200));
    exchange.step(Event::Chunk(Some(Bytes::from_static(b"\xef\xbb"))));
    match exchange.step(Event::Chunk(Some(Bytes::from_static(b"\xbfdata: 1")))).want {
        Want::Events(chunks) => assert_eq!(chunks.concat(), b"data: 1"),
        other => panic!("{other:?}"),
    }
}

#[test]
fn a_body_in_no_known_format_is_refused() {
    assert_eq!(
        reply(Adapter::OpenAiChat, "<html>"),
        error("无法识别 LLM 响应格式; Content-Type=<缺失>; Content-Encoding=<缺失>; 正文前缀不匹配 JSON/SSE; 响应摘要=<html>")
    );
    let mut exchange = Exchange::open(Adapter::Claude, "k1");
    exchange.step(head(200));
    let blank = Bytes::from(vec![b' '; 8 * 1024]);
    match &exchange.step(Event::Chunk(Some(blank))).chunks[..] {
        [LlmChunk::Error(message)] => assert!(message.contains("已达到 8 KiB 探测上限")),
        other => panic!("{other:?}"),
    }
    let mut exchange = Exchange::open(Adapter::Claude, "k1");
    exchange.step(Event::Head {
        code: 200,
        content_type: Some("application/json".to_string()),
        content_encoding: None,
    });
    let step = exchange.step(Event::Chunk(None));
    assert!(matches!(step.want, Want::Chunk));
}

#[test]
fn a_json_reply_may_not_be_too_long() {
    for (adapter, size, message) in [
        (Adapter::OpenAiChat, 8, "LLM JSON 响应超过 8 MiB 限制"),
        (Adapter::Claude, 4, "Anthropic JSON 响应超过 4 MiB 限制"),
    ] {
        let mut exchange = Exchange::open(adapter, "k1");
        exchange.step(head(200));
        let full = Bytes::from(vec![b'['; size * 1024 * 1024]);
        let step = exchange.step(Event::Chunk(Some(full)));
        assert!(step.chunks.is_empty());
        let step = exchange.step(Event::Chunk(Some(Bytes::from_static(b"["))));
        assert_eq!(step.chunks, error(message));

        let mut exchange = Exchange::open(adapter, "k1");
        exchange.step(head(200));
        let mut chunks = vec![Bytes::from_static(b"\xef"), Bytes::from_static(b"\xbb\xbf [")];
        chunks.resize(size + 3, Bytes::from(vec![b' '; 1024 * 1024]));
        let last = chunks.iter().find_map(|chunk| {
            let step = exchange.step(Event::Chunk(Some(chunk.clone())));
            matches!(step.want, Want::Stop).then_some(step.chunks)
        });
        assert_eq!(last, Some(error(message)));
    }
}

fn jev_head(code: u16, retry_after: Option<&str>) -> JevEvent {
    JevEvent::Head {
        code,
        retry_after: retry_after.map(str::to_owned),
    }
}

#[test]
fn jev_is_asked_again_when_it_is_overloaded() {
    let mut exchange = JevExchange::open("k1", 4);
    for (code, retry_after, pause) in [
        (429, None, 2),
        (529, Some("1"), 1),
        (529, Some("soon"), 8),
    ] {
        assert_eq!(exchange.step(jev_head(code, retry_after)).want, JevWant::ErrorBody);
        let step = exchange.step(JevEvent::ErrorBody("busy".to_string()));
        assert!(step.chunks.is_empty());
        assert_eq!(step.want, JevWant::Pause(pause));
        assert_eq!(exchange.step(JevEvent::Waited).want, JevWant::Reply);
    }
    exchange.step(jev_head(529, Some("99")));
    let step = exchange.step(JevEvent::ErrorBody("busy k1".to_string()));
    assert_eq!(
        step.chunks,
        error("JEV 请求失败 (HTTP 529 <unknown status code> 服务端过载): busy [REDACTED]（已重试 3 次）")
    );
    assert_eq!(step.want, JevWant::Stop);
}

#[test]
fn other_refusals_of_jev_are_final() {
    let mut exchange = JevExchange::open("k1", 4);
    exchange.step(jev_head(401, None));
    let step = exchange.step(JevEvent::ErrorBody("no".to_string()));
    assert_eq!(
        step.chunks,
        error("JEV 请求失败 (HTTP 401 Unauthorized API Key 无效或缺失): no")
    );
    let mut exchange = JevExchange::open("k1", 4);
    let step = exchange.step(JevEvent::SendFailed(failure("x")));
    assert_eq!(step.chunks, error("JEV 请求失败 [超时]: x"));
    let mut exchange = JevExchange::open("k1", 4);
    exchange.step(jev_head(500, None));
    let step = exchange.step(JevEvent::ErrorBodyFailed(failure("x")));
    assert_eq!(step.chunks, error("读取 JEV 错误响应失败 [超时]: x"));
}

#[test]
fn a_choice_of_jev_is_reported_by_its_number() {
    let mut exchange = JevExchange::open("k1", 4);
    assert_eq!(exchange.step(jev_head(200, None)).want, JevWant::Chunk);
    exchange.step(JevEvent::Chunk(Some(Bytes::from_static(
        br#"{"model": "jev", "answers": "#,
    ))));
    exchange.step(JevEvent::Chunk(Some(Bytes::from_static(
        br#"{"answer": {"choice": "3", "confidence": 0.5}}}"#,
    ))));
    assert_eq!(exchange.step(JevEvent::Chunk(None)).want, JevWant::Settle);
    assert_eq!(
        exchange.step(JevEvent::Settled).chunks,
        text(&[("thinking", "JEV jev｜置信度 0.50｜"), ("done", "3")])
    );
}

#[test]
fn unusable_replies_of_jev_are_errors() {
    let ended = |body: &'static [u8]| {
        let mut exchange = JevExchange::open("k1", 2);
        exchange.step(jev_head(200, None));
        exchange.step(JevEvent::Chunk(Some(Bytes::from_static(body))));
        exchange.step(JevEvent::Chunk(None)).chunks
    };
    assert_eq!(ended(b"{}"), error("JEV 响应缺少 answers.answer"));
    assert_eq!(
        ended(br#"{"answers": {"answer": {"choice": "3"}}}"#),
        error("JEV 返回的选项 3 超出有效范围 1-2")
    );
    match &ended(b"<html>")[..] {
        [LlmChunk::Error(message)] => {
            assert!(message.starts_with("解析 JEV JSON 响应失败: "));
            assert!(message.ends_with("; 响应摘要: <html>"));
        }
        other => panic!("{other:?}"),
    }
    let mut exchange = JevExchange::open("k1", 2);
    exchange.step(jev_head(200, None));
    exchange.step(JevEvent::Chunk(Some(Bytes::from(vec![b' '; 1024 * 1024]))));
    let step = exchange.step(JevEvent::Chunk(Some(Bytes::from_static(b" "))));
    assert_eq!(step.chunks, error("JEV 响应超过 1 MiB 限制"));
    let mut exchange = JevExchange::open("k1", 2);
    exchange.step(jev_head(200, None));
    let step = exchange.step(JevEvent::ChunkFailed(failure("x")));
    assert_eq!(step.chunks, error("读取 JEV 响应失败 [超时]: x"));
    assert!(JevExchange::open("k1", 2).step(JevEvent::Cancelled).chunks.is_empty());
}

fn config(protocol: Option<Protocol>, base_url: &str) -> LlmConfig {
    LlmConfig {
        base_url: base_url.to_string(),
        model: "m/1".to_string(),
        api_key: "k1".to_string(),
        protocol,
        enable_thinking: false,
        reasoning_effort: " ".to_string(),
        enable_fast_mode: false,
    }
}

#[test]
fn the_client_speaks_the_protocol_of_the_configuration() {
    let options = ["2".to_string(), "3".to_string()];
    let request = QuizRequest {
        question: "1+1",
        options: &options,
        categories: &[],
    };
    for (protocol, url, header) in [
        (Protocol::OpenAiChat, "https://a/v1/chat/completions", "Authorization"),
        (Protocol::OpenAiResponses, "https://a/v1/responses", "Authorization"),
        (Protocol::Claude, "https://a/v1/messages", "x-api-key"),
        (
            Protocol::Gemini,
            "https://a/v1beta/models/m%2F1:streamGenerateContent?alt=sse",
            "x-goog-api-key",
        ),
        (Protocol::GeminiInteractions, "https://a/v1beta/interactions", "x-goog-api-key"),
        (Protocol::Jev, "https://a/v1/systemone", "Authorization"),
    ] {
        let client = LlmClient::new(&config(Some(protocol), "https://a"));
        let sent = match client.ask(&request) {
            Asked::Exchange(sent, exchange) => {
                assert!(matches!(exchange.stage, Stage::Sent));
                sent
            }
            Asked::Jev(sent, _) => {
                assert_eq!(protocol, Protocol::Jev);
                sent
            }
            Asked::Refused(_) => panic!("there are options"),
        };
        assert_eq!(sent.url, url);
        assert_eq!(sent.headers[1].0, header);
    }
    match LlmClient::new(&config(None, "https://a/v1/messages")) {
        LlmClient::Claude(client) => {
            assert_eq!(client.endpoint, "https://a/v1/messages");
            assert_eq!(client.reasoning_effort, "high");
        }
        other => panic!("{other:?}"),
    }
}
