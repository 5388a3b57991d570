//! The exchange that follows a request: what to read next, what to report, and how it ends.
use super::openai;
use super::providers::claude;
use super::providers::gemini;
use super::providers::gemini_interactions;
use super::providers::openai_chat;
use super::providers::openai_responses;
use super::shared::body::{open_body_stream, BodyReader, BodyStep, BodyStepView, ReaderView};
use super::shared::http::{
    format_reqwest_error, safe_preview, send_error, TransportError, TransportView,
};
use super::shared::payload::{emit_payload, report, ParsedPayload, PayloadView};
use super::shared::stream::{
    format_event_stream_error, lossy_text, read_error_message, StreamError, StreamErrorView,
};
use super::{ChunkView, LlmChunk};
use crate::json::{Json, JsonView};
use crate::text;
use vstd::prelude::*;
use vstd::string::*;

verus! {

broadcast use {vstd::seq_lib::group_seq_properties, vstd::string::group_string_axioms};

/// The adapters whose replies come as a body that is JSON or a stream of events.
#[derive(Debug, Clone, Copy, PartialEq, Eq, Structural)]
pub enum Adapter {
    OpenAiChat,
    OpenAiResponses,
    Claude,
    Gemini,
    GeminiInteractions,
    /// The client with an endpoint of its own, [`super::openai::OpenAiClient`].
    OpenAi,
}

/// How an adapter is called in messages.
pub open spec fn label_of(adapter: Adapter) -> Seq<char> {
    match adapter {
        Adapter::OpenAiChat | Adapter::OpenAi => "LLM"@,
        Adapter::OpenAiResponses => "OpenAI Responses"@,
        Adapter::Claude => "Anthropic"@,
        Adapter::Gemini => "Gemini"@,
        Adapter::GeminiInteractions => "Gemini Interactions"@,
    }
}

/// How long a JSON reply may be.
pub open spec fn limit_of(adapter: Adapter) -> usize {
    match adapter {
        Adapter::OpenAiChat | Adapter::OpenAi => openai_chat::MAX_JSON_RESPONSE_SIZE,
        Adapter::OpenAiResponses => openai_responses::MAX_JSON_RESPONSE_SIZE,
        Adapter::Claude => claude::MAX_JSON_RESPONSE_SIZE,
        Adapter::Gemini => gemini::MAX_JSON_RESPONSE_SIZE,
        Adapter::GeminiInteractions => gemini_interactions::MAX_JSON_RESPONSE_SIZE,
    }
}

/// Whether a stream of the adapter may end with the event `[DONE]`.
pub open spec fn has_sentinel(adapter: Adapter) -> bool {
    adapter is OpenAiChat || adapter is OpenAiResponses || adapter is OpenAi
}

/// What a whole JSON reply brings.
pub open spec fn whole_reply(adapter: Adapter, value: JsonView) -> Result<PayloadView, Seq<char>> {
    match adapter {
        Adapter::OpenAiChat => openai_chat::whole_reply(openai_chat::payload_of(value)),
        Adapter::OpenAi => openai_chat::whole_reply(openai::payload_of(value)),
        Adapter::OpenAiResponses => openai_responses::whole_reply(value),
        Adapter::Claude => claude::whole_reply(value),
        Adapter::Gemini => gemini::chunk_payload(value),
        Adapter::GeminiInteractions => gemini_interactions::interaction_payload(value),
    }
}

/// What an event of a stream brings; `unanswered` says that no answer has come in yet.
pub open spec fn event_reply(adapter: Adapter, value: JsonView, unanswered: bool) -> Result<
    PayloadView,
    Seq<char>,
> {
    match adapter {
        Adapter::OpenAiChat => openai_chat::event_reply(openai_chat::payload_of(value)),
        Adapter::OpenAi => openai_chat::event_reply(openai::payload_of(value)),
        Adapter::OpenAiResponses => openai_responses::event_reply(value, unanswered),
        Adapter::Claude => claude::event_payload(value),
        Adapter::Gemini => gemini::chunk_payload(value),
        Adapter::GeminiInteractions => gemini_interactions::interaction_payload(value),
    }
}

/// What is said of a request that was refused.
pub open spec fn refusal_of(
    adapter: Adapter,
    code: u16,
    body: Seq<char>,
    api_key: Seq<char>,
) -> Seq<char> {
    match adapter {
        Adapter::OpenAi => openai::refusal_text(code, body, api_key),
        _ => super::shared::stream::refusal_text(code, body, label_of(adapter), api_key),
    }
}

/// Where an exchange stands.
#[derive(Debug)]
pub enum Stage {
    /// The request is on its way.
    Sent,
    /// The request was refused with this status code.
    Refused(u16),
    /// The body of the reply is being read.
    Body(BodyReader),
    /// The body is a stream of events.
    Events,
    /// The reply is over.
    Settling,
    Closed,
}

/// Where an exchange stands.
#[verifier::ext_equal]
pub enum StageView {
    Sent,
    Refused(u16),
    Body(ReaderView),
    Events,
    Settling,
    Closed,
}

impl View for Stage {
    type V = StageView;

    open spec fn view(&self) -> StageView {
        match self {
            Stage::Sent => StageView::Sent,
            Stage::Refused(code) => StageView::Refused(*code),
            Stage::Body(reader) => StageView::Body(reader@),
            Stage::Events => StageView::Events,
            Stage::Settling => StageView::Settling,
            Stage::Closed => StageView::Closed,
        }
    }
}

/// What happened.
#[derive(Debug)]
pub enum Event {
    /// The task was called off.
    Cancelled,
    SendFailed(TransportError),
    /// The head of the reply came in.
    Head { code: u16, content_type: Option<String>, content_encoding: Option<String> },
    /// The body of a refusal came in.
    ErrorBody(String),
    ErrorBodyFailed(TransportError),
    /// The next chunk of the body came in, or its end.
    Chunk(Option<bytes::Bytes>),
    ChunkFailed(TransportError),
    /// The data of the next event of the stream came in.
    Sse(String),
    SseFailed(StreamError),
    SseEnd,
    /// The reply is over, and the task was not called off.
    Settled,
}

/// What happened.
#[verifier::ext_equal]
pub enum EventView {
    Cancelled,
    SendFailed(TransportView),
    Head { code: u16, content_type: Option<Seq<char>>, content_encoding: Option<Seq<char>> },
    ErrorBody(Seq<char>),
    ErrorBodyFailed(TransportView),
    Chunk(Option<Seq<u8>>),
    ChunkFailed(TransportView),
    Sse(Seq<char>),
    SseFailed(StreamErrorView),
    SseEnd,
    Settled,
}

impl View for Event {
    type V = EventView;

    open spec fn view(&self) -> EventView {
        match self {
            Event::Cancelled => EventView::Cancelled,
            Event::SendFailed(error) => EventView::SendFailed(error@),
            Event::Head { code, content_type, content_encoding } => EventView::Head {
                code: *code,
                content_type: text::opt_text(*content_type),
                content_encoding: text::opt_text(*content_encoding),
            },
            Event::ErrorBody(body) => EventView::ErrorBody(body@),
            Event::ErrorBodyFailed(error) => EventView::ErrorBodyFailed(error@),
            Event::Chunk(chunk) => EventView::Chunk(
                match chunk {
                    Some(chunk) => Some(super::shared::stream::bytes_held(*chunk)),
                    None => None,
                },
            ),
            Event::ChunkFailed(error) => EventView::ChunkFailed(error@),
            Event::Sse(data) => EventView::Sse(data@),
            Event::SseFailed(error) => EventView::SseFailed(error@),
            Event::SseEnd => EventView::SseEnd,
            Event::Settled => EventView::Settled,
        }
    }
}

/// What the exchange waits for next.
#[derive(Debug)]
pub enum Want {
    ErrorBody,
    Chunk,
    /// The first event of the stream that these chunks start and the rest of the body
    /// goes on with.
    Events(Vec<bytes::Bytes>),
    Event,
    /// To hear whether the task was called off.
    Settle,
    Stop,
}

/// What the exchange waits for next.
#[verifier::ext_equal]
pub enum WantView {
    ErrorBody,
    Chunk,
    Events(Seq<Seq<u8>>),
    Event,
    Settle,
    Stop,
}

impl View for Want {
    type V = WantView;

    open spec fn view(&self) -> WantView {
        match self {
            Want::ErrorBody => WantView::ErrorBody,
            Want::Chunk => WantView::Chunk,
            Want::Events(chunks) => WantView::Events(
                super::shared::stream::chunks_held(chunks@),
            ),
            Want::Event => WantView::Event,
            Want::Settle => WantView::Settle,
            Want::Stop => WantView::Stop,
        }
    }
}

/// What comes of an event: what to report, and what to wait for.
#[derive(Debug)]
pub struct Step {
    pub chunks: Vec<LlmChunk>,
    pub want: Want,
}

/// What comes of an event.
#[verifier::ext_equal]
pub struct StepView {
    pub chunks: Seq<ChunkView>,
    pub want: WantView,
}

impl View for Step {
    type V = StepView;

    open spec fn view(&self) -> StepView {
        StepView { chunks: super::chunk_views(self.chunks@), want: self.want@ }
    }
}

/// An exchange.
#[derive(Debug)]
pub struct Exchange {
    pub adapter: Adapter,
    pub api_key: String,
    pub stage: Stage,
    /// The answer as far as it came in.
    pub full_content: String,
    /// The last reasoning and answer, where each event holds them whole.
    pub latest: ParsedPayload,
}

/// What an exchange holds.
#[verifier::ext_equal]
pub struct ExchangeView {
    pub adapter: Adapter,
    pub api_key: Seq<char>,
    pub stage: StageView,
    pub full_content: Seq<char>,
    pub latest: PayloadView,
}

impl View for Exchange {
    type V = ExchangeView;

    open spec fn view(&self) -> ExchangeView {
        ExchangeView {
            adapter: self.adapter,
            api_key: self.api_key@,
            stage: self.stage@,
            full_content: self.full_content@,
            latest: self.latest@,
        }
    }
}

/// An exchange whose request is on its way.
pub open spec fn opened(adapter: Adapter, api_key: Seq<char>) -> ExchangeView {
    ExchangeView {
        adapter,
        api_key,
        stage: StageView::Sent,
        full_content: seq![],
        latest: super::shared::payload::nothing(),
    }
}

/// A payload over an earlier one: each part of it where it has it.
pub open spec fn over(payload: PayloadView, earlier: PayloadView) -> PayloadView {
    PayloadView {
        reasoning: if payload.reasoning is Some {
            payload.reasoning
        } else {
            earlier.reasoning
        },
        content: if payload.content is Some {
            payload.content
        } else {
            earlier.content
        },
    }
}

/// What is said of a reply that brought no answer.
pub open spec fn unanswered_text(adapter: Adapter) -> Seq<char> {
    label_of(adapter) + " 响应结束但未包含可用正文"@
}

impl ExchangeView {
    /// What was read of the body is well-formed. Only Gemini Interactions, whose events
    /// hold the answer whole, keeps the last one instead of the sum.
    pub open spec fn wf(self) -> bool {
        &&& self.stage matches StageView::Body(reader) ==> reader.wf()
        &&& self.keeps_one()
    }

    /// Whether only the answer in the way of the adapter is kept.
    pub open spec fn keeps_one(self) -> bool {
        &&& self.adapter is GeminiInteractions ==> self.full_content.len() == 0
        &&& self.adapter !is GeminiInteractions ==> self.latest
            == super::shared::payload::nothing()
    }

    /// Whether an event can happen where the exchange stands.
    pub open spec fn expects(self, event: EventView) -> bool {
        match event {
            EventView::Cancelled => self.stage !is Closed,
            EventView::SendFailed(_) => self.stage is Sent,
            EventView::Head { code, .. } => self.stage is Sent && 100 <= code < 1000,
            EventView::ErrorBody(_) | EventView::ErrorBodyFailed(_) => self.stage matches
                StageView::Refused(code) && 100 <= code < 1000,
            EventView::Chunk(_) | EventView::ChunkFailed(_) => self.stage is Body,
            EventView::Sse(_) | EventView::SseFailed(_) | EventView::SseEnd => self.stage is Events,
            EventView::Settled => self.stage is Settling,
        }
    }

    /// The exchange at a stage, with nothing to report.
    pub open spec fn going(self, stage: StageView, want: WantView) -> (ExchangeView, StepView) {
        (ExchangeView { stage, ..self }, StepView { chunks: seq![], want })
    }

    /// The exchange ended by an error.
    pub open spec fn failing(self, message: Seq<char>) -> (ExchangeView, StepView) {
        (
            ExchangeView { stage: StageView::Closed, ..self },
            StepView {
                chunks: seq![
                    ChunkView::Error(super::shared::http::redacted(message, self.api_key)),
                ],
                want: WantView::Stop,
            },
        )
    }

    /// The exchange with what a reply brought.
    pub open spec fn taking(self, payload: PayloadView, stage: StageView, want: WantView) -> (
        ExchangeView,
        StepView,
    ) {
        if self.adapter is GeminiInteractions {
            (
                ExchangeView { stage, latest: over(payload, self.latest), ..self },
                StepView { chunks: seq![], want },
            )
        } else {
            (
                ExchangeView {
                    stage,
                    full_content: self.full_content + super::shared::payload::added(payload),
                    ..self
                },
                StepView { chunks: super::shared::payload::reported(payload), want },
            )
        }
    }

    /// What comes of a whole JSON reply.
    pub open spec fn whole(self, bytes: Seq<u8>) -> (ExchangeView, StepView) {
        let label = label_of(self.adapter);
        match crate::json::json_of_bytes(bytes) {
            Ok(value) => match whole_reply(self.adapter, value) {
                Ok(payload) => self.taking(payload, StageView::Settling, WantView::Settle),
                Err(message) => self.failing(message),
            },
            Err(error) => self.failing(
                "解析 "@ + label + " JSON 响应失败: "@ + error + "; 响应摘要: "@
                    + super::shared::http::preview(
                    super::shared::stream::lossy(bytes),
                    self.api_key,
                    200,
                ),
            ),
        }
    }

    /// What comes of the data of an event.
    pub open spec fn event(self, data: Seq<char>) -> (ExchangeView, StepView) {
        if has_sentinel(self.adapter) && data == "[DONE]"@ {
            self.going(StageView::Settling, WantView::Settle)
        } else {
            match crate::json::json_of_text(data) {
                Ok(value) => match event_reply(
                    self.adapter,
                    value,
                    self.full_content.len() == 0,
                ) {
                    Ok(payload) => self.taking(payload, StageView::Events, WantView::Event),
                    Err(message) => self.failing(message),
                },
                Err(error) => self.failing(
                    "解析 "@ + label_of(self.adapter) + " SSE 事件 JSON 失败: "@ + error,
                ),
            }
        }
    }

    /// What comes of the reply being over.
    pub open spec fn settled(self) -> (ExchangeView, StepView) {
        let closed = ExchangeView { stage: StageView::Closed, ..self };
        if self.adapter is GeminiInteractions {
            match self.latest.content {
                Some(content) => (
                    closed,
                    StepView {
                        chunks: super::shared::payload::reported(self.latest).push(
                            ChunkView::Done(content),
                        ),
                        want: WantView::Stop,
                    },
                ),
                None => self.failing(unanswered_text(self.adapter)),
            }
        } else if text::trim(self.full_content).len() == 0 {
            self.failing(unanswered_text(self.adapter))
        } else {
            (
                closed,
                StepView {
                    chunks: seq![ChunkView::Done(self.full_content)],
                    want: WantView::Stop,
                },
            )
        }
    }

    /// What is said where the stream failed.
    pub open spec fn stream_failure(self, error: StreamErrorView) -> Seq<char> {
        let label = label_of(self.adapter);
        if self.adapter is GeminiInteractions {
            "读取 "@ + label + " SSE 响应失败: "@ + error.shown
        } else {
            super::shared::stream::stream_error_text(error, label, self.api_key)
        }
    }

    /// What comes of the next chunk of the body.
    pub open spec fn read(self, reader: ReaderView, chunk: Option<Seq<u8>>) -> (
        ExchangeView,
        StepView,
    ) {
        let (reader, step) = reader.next(
            chunk,
            label_of(self.adapter),
            self.api_key,
            limit_of(self.adapter),
        );
        match step {
            BodyStepView::More => self.going(StageView::Body(reader), WantView::Chunk),
            BodyStepView::Sse(chunks) => self.going(StageView::Events, WantView::Events(chunks)),
            BodyStepView::Json(bytes) => self.whole(bytes),
            BodyStepView::Failed(message) => self.failing(message),
        }
    }

    /// What comes of an event.
    pub open spec fn step(self, event: EventView) -> (ExchangeView, StepView) {
        let label = label_of(self.adapter);
        match (self.stage, event) {
            (_, EventView::Cancelled) => self.going(StageView::Closed, WantView::Stop),
            (StageView::Sent, EventView::SendFailed(error)) => self.failing(
                super::shared::http::transport_text(label + " 请求失败"@, error, self.api_key),
            ),
            (StageView::Sent, EventView::Head { code, content_type, content_encoding }) => if 200
                <= code < 300 {
                self.going(
                    StageView::Body(
                        ReaderView {
                            content_type,
                            content_encoding,
                            prefix: seq![],
                            chunks: seq![],
                            json: None,
                        },
                    ),
                    WantView::Chunk,
                )
            } else {
                self.going(StageView::Refused(code), WantView::ErrorBody)
            },
            (StageView::Refused(code), EventView::ErrorBody(body)) => self.failing(
                refusal_of(self.adapter, code, body, self.api_key),
            ),
            (StageView::Refused(_), EventView::ErrorBodyFailed(error)) => self.failing(
                super::shared::http::transport_text(
                    "读取 "@ + label + " 错误响应失败"@,
                    error,
                    self.api_key,
                ),
            ),
            (StageView::Body(reader), EventView::Chunk(chunk)) => self.read(reader, chunk),
            (StageView::Body(reader), EventView::ChunkFailed(error)) => self.failing(
                reader.read_failure(error, label, self.api_key),
            ),
            (StageView::Events, EventView::Sse(data)) => self.event(data),
            (StageView::Events, EventView::SseFailed(error)) => self.failing(
                self.stream_failure(error),
            ),
            (StageView::Events, EventView::SseEnd) => self.going(
                StageView::Settling,
                WantView::Settle,
            ),
            (StageView::Settling, EventView::Settled) => self.settled(),
            _ => self.going(self.stage, WantView::Stop),
        }
    }
}

impl Adapter {
    /// How the adapter is called in messages.
    pub fn label(self) -> (r: &'static str)
        ensures
            r@ == label_of(self),
    {
        match self {
            Adapter::OpenAiChat | Adapter::OpenAi => openai_chat::LABEL,
            Adapter::OpenAiResponses => openai_responses::LABEL,
            Adapter::Claude => claude::LABEL,
            Adapter::Gemini => gemini::LABEL,
            Adapter::GeminiInteractions => gemini_interactions::LABEL,
        }
    }

    fn max_json_bytes(self) -> (r: usize)
        ensures
            r == limit_of(self),
    {
        match self {
            Adapter::OpenAiChat | Adapter::OpenAi => openai_chat::MAX_JSON_RESPONSE_SIZE,
            Adapter::OpenAiResponses => openai_responses::MAX_JSON_RESPONSE_SIZE,
            Adapter::Claude => claude::MAX_JSON_RESPONSE_SIZE,
            Adapter::Gemini => gemini::MAX_JSON_RESPONSE_SIZE,
            Adapter::GeminiInteractions => gemini_interactions::MAX_JSON_RESPONSE_SIZE,
        }
    }

    fn sentinel(self) -> (r: bool)
        ensures
            r == has_sentinel(self),
    {
        match self {
            Adapter::OpenAiChat | Adapter::OpenAiResponses | Adapter::OpenAi => true,
            Adapter::Claude | Adapter::Gemini | Adapter::GeminiInteractions => false,
        }
    }

    fn read_whole(self, value: &Json) -> (r: Result<ParsedPayload, String>)
        ensures
            super::shared::payload::reply_view(r) == whole_reply(self, value@),
    {
        match self {
            Adapter::OpenAiChat => openai_chat::read_whole(openai_chat::parse_payload(value)),
            Adapter::OpenAi => openai_chat::read_whole(openai::parse_payload(value)),
            Adapter::OpenAiResponses => openai_responses::read_whole(value),
            Adapter::Claude => claude::read_whole(value),
            Adapter::Gemini => gemini::parse_chunk(value),
            Adapter::GeminiInteractions => gemini_interactions::parse_interaction(value),
        }
    }

    fn read_event(self, value: &Json, unanswered: bool) -> (r: Result<ParsedPayload, String>)
        ensures
            super::shared::payload::reply_view(r) == event_reply(self, value@, unanswered),
    {
        match self {
            Adapter::OpenAiChat => openai_chat::read_event(openai_chat::parse_payload(value)),
            Adapter::OpenAi => openai_chat::read_event(openai::parse_payload(value)),
            Adapter::OpenAiResponses => openai_responses::read_event(value, unanswered),
            Adapter::Claude => claude::parse_event(value),
            Adapter::Gemini => gemini::parse_chunk(value),
            Adapter::GeminiInteractions => gemini_interactions::parse_interaction(value),
        }
    }

    fn describe_refusal(self, code: u16, body: &str, api_key: &str) -> (r: String)
        requires
            100 <= code < 1000,
        ensures
            r@ == refusal_of(self, code, body@, api_key@),
    {
        match self {
            Adapter::OpenAi => openai::describe_refusal(code, body, api_key),
            _ => read_error_message(code, body, self.label(), api_key),
        }
    }
}

impl Exchange {
    /// An exchange whose request is on its way.
    pub fn open(adapter: Adapter, api_key: &str) -> (r: Exchange)
        ensures
            r@ == opened(adapter, api_key@),
            r@.wf(),
    {
        let full_content = String::new();
        assert(full_content@ =~= seq![]);
        Exchange {
            adapter,
            api_key: api_key.to_owned(),
            stage: Stage::Sent,
            full_content,
            latest: ParsedPayload { reasoning: None, content: None },
        }
    }

    /// The exchange at a stage, with nothing to report.
    fn go(&mut self, stage: Stage, want: Want) -> (step: Step)
        ensures
            (final(self)@, step@) == old(self)@.going(stage@, want@),
    {
        self.stage = stage;
        let step = Step { chunks: Vec::new(), want };
        assert(step@.chunks =~= seq![]);
        step
    }

    /// Ends the exchange with an error.
    fn fail(&mut self, message: &str) -> (step: Step)
        ensures
            (final(self)@, step@) == old(self)@.failing(message@),
    {
        self.stage = Stage::Closed;
        let mut chunks: Vec<LlmChunk> = Vec::new();
        send_error(&mut chunks, self.api_key.as_str(), message);
        let step = Step { chunks, want: Want::Stop };
        assert(step@ =~= old(self)@.failing(message@).1);
        step
    }

    /// Takes what a reply brought.
    fn take(&mut self, payload: ParsedPayload, stage: Stage, want: Want) -> (step: Step)
        ensures
            (final(self)@, step@) == old(self)@.taking(payload@, stage@, want@),
    {
        self.stage = stage;
        let mut chunks: Vec<LlmChunk> = Vec::new();
        match self.adapter {
            Adapter::GeminiInteractions => {
                if payload.reasoning.is_some() {
                    self.latest.reasoning = payload.reasoning;
                }
                if payload.content.is_some() {
                    self.latest.content = payload.content;
                }
            },
            _ => {
                emit_payload(payload, &mut self.full_content, &mut chunks);
            },
        }
        let step = Step { chunks, want };
        assert(step@ =~= old(self)@.taking(payload@, stage@, want@).1);
        step
    }

    /// Takes a whole JSON reply.
    fn take_whole(&mut self, bytes: &[u8]) -> (step: Step)
        ensures
            (final(self)@, step@) == old(self)@.whole(bytes@),
    {
        let adapter = self.adapter;
        match Json::parse_bytes(bytes) {
            Ok(value) => match adapter.read_whole(&value) {
                Ok(payload) => self.take(payload, Stage::Settling, Want::Settle),
                Err(message) => self.fail(message.as_str()),
            },
            Err(error) => {
                let mut message = text::concat("解析 ", adapter.label());
                message.append(" JSON 响应失败: ");
                message.append(error.as_str());
                message.append("; 响应摘要: ");
                message.append(
                    safe_preview(lossy_text(bytes).as_str(), self.api_key.as_str(), 200).as_str(),
                );
                self.fail(message.as_str())
            },
        }
    }

    /// Takes the data of an event.
    fn take_event(&mut self, data: &str) -> (step: Step)
        ensures
            (final(self)@, step@) == old(self)@.event(data@),
    {
        let adapter = self.adapter;
        if adapter.sentinel() && text::same(data, "[DONE]") {
            return self.go(Stage::Settling, Want::Settle);
        }
        match Json::parse(data) {
            Ok(value) => {
                let unanswered = self.full_content.as_str().is_empty();
                match adapter.read_event(&value, unanswered) {
                    Ok(payload) => self.take(payload, Stage::Events, Want::Event),
                    Err(message) => self.fail(message.as_str()),
                }
            },
            Err(error) => {
                let mut message = text::concat("解析 ", adapter.label());
                message.append(" SSE 事件 JSON 失败: ");
                message.append(error.as_str());
                self.fail(message.as_str())
            },
        }
    }

    /// Ends the exchange when the reply is over.
    fn settle(&mut self) -> (step: Step)
        ensures
            (final(self)@, step@) == old(self)@.settled(),
    {
        let adapter = self.adapter;
        let mut chunks: Vec<LlmChunk> = Vec::new();
        match adapter {
            Adapter::GeminiInteractions => {
                let content = match &self.latest.content {
                    Some(content) => content.clone(),
                    None => {
                        return self.fail(
                            text::concat(adapter.label(), " 响应结束但未包含可用正文").as_str(),
                        );
                    },
                };
                if let Some(reasoning) = &self.latest.reasoning {
                    report(&mut chunks, LlmChunk::Thinking(reasoning.clone()));
                }
                report(&mut chunks, LlmChunk::Content(content.clone()));
                report(&mut chunks, LlmChunk::Done(content));
            },
            _ => {
                if text::blank(self.full_content.as_str()) {
                    return self.fail(
                        text::concat(adapter.label(), " 响应结束但未包含可用正文").as_str(),
                    );
                }
                report(&mut chunks, LlmChunk::Done(self.full_content.clone()));
            },
        }
        self.stage = Stage::Closed;
        let step = Step { chunks, want: Want::Stop };
        assert(step@ =~= old(self)@.settled().1);
        step
    }

    /// Takes the head of the reply.
    fn take_head(
        &mut self,
        code: u16,
        content_type: Option<String>,
        content_encoding: Option<String>,
    ) -> (step: Step)
        requires
            old(self)@.stage is Sent,
            100 <= code < 1000,
        ensures
            (final(self)@, step@) == old(self)@.step(
                EventView::Head {
                    code,
                    content_type: text::opt_text(content_type),
                    content_encoding: text::opt_text(content_encoding),
                },
            ),
            final(self)@.stage matches StageView::Body(reader) ==> reader.wf(),
    {
        if 200 <= code && code < 300 {
            self.go(Stage::Body(open_body_stream(content_type, content_encoding)), Want::Chunk)
        } else {
            self.go(Stage::Refused(code), Want::ErrorBody)
        }
    }

    /// Ends the exchange with a transport error.
    fn fail_with(&mut self, context: &str, error: &TransportError) -> (step: Step)
        ensures
            (final(self)@, step@) == old(self)@.failing(
                super::shared::http::transport_text(context@, error@, old(self)@.api_key),
            ),
    {
        let message = format_reqwest_error(context, error, self.api_key.as_str());
        self.fail(message.as_str())
    }

    /// Takes the body of a refusal.
    fn take_refusal(&mut self, body: &str) -> (step: Step)
        requires
            old(self)@.expects(EventView::ErrorBody(body@)),
        ensures
            (final(self)@, step@) == old(self)@.step(EventView::ErrorBody(body@)),
    {
        let code: u16 = match &self.stage {
            Stage::Refused(code) => *code,
            _ => 100,
        };
        let message = self.adapter.describe_refusal(code, body, self.api_key.as_str());
        self.fail(message.as_str())
    }

    /// Takes the next chunk of the body.
    fn read(&mut self, chunk: Option<bytes::Bytes>) -> (step: Step)
        requires
            old(self)@.stage matches StageView::Body(reader) && reader.wf(),
        ensures
            (final(self)@, step@) == old(self)@.read(
                old(self)@.stage->Body_0,
                match chunk {
                    Some(chunk) => Some(super::shared::stream::bytes_held(chunk)),
                    None => None,
                },
            ),
            final(self)@.stage matches StageView::Body(reader) ==> reader.wf(),
    {
        let adapter = self.adapter;
        let mut stage = Stage::Closed;
        std::mem::swap(&mut stage, &mut self.stage);
        let ghost before = self@;
        proof {
            assert(forall|m: Seq<char>| #[trigger] before.failing(m) == old(self)@.failing(m));
        }
        match stage {
            Stage::Body(mut reader) => match reader.next(
                chunk,
                adapter.label(),
                self.api_key.as_str(),
                adapter.max_json_bytes(),
            ) {
                BodyStep::More => self.go(Stage::Body(reader), Want::Chunk),
                BodyStep::Sse(chunks) => self.go(Stage::Events, Want::Events(chunks)),
                BodyStep::Json(bytes) => self.take_whole(&bytes),
                BodyStep::Failed(message) => self.fail(message.as_str()),
            },
            _ => self.go(stage, Want::Stop),
        }
    }

    /// Ends the exchange where reading the body failed.
    fn fail_body(&mut self, error: &TransportError) -> (step: Step)
        requires
            old(self)@.stage is Body,
        ensures
            (final(self)@, step@) == old(self)@.step(EventView::ChunkFailed(error@)),
    {
        let message = match &self.stage {
            Stage::Body(reader) => reader.read_failed(
                error,
                self.adapter.label(),
                self.api_key.as_str(),
            ),
            _ => String::new(),
        };
        self.fail(message.as_str())
    }

    /// Ends the exchange where the stream failed.
    fn fail_stream(&mut self, error: &StreamError) -> (step: Step)
        ensures
            (final(self)@, step@) == old(self)@.failing(old(self)@.stream_failure(error@)),
    {
        let message = match self.adapter {
            Adapter::GeminiInteractions => {
                let mut message = text::concat("读取 ", self.adapter.label());
                message.append(" SSE 响应失败: ");
                message.append(error.shown.as_str());
                message
            },
            _ => format_event_stream_error(error, self.adapter.label(), self.api_key.as_str()),
        };
        self.fail(message.as_str())
    }

    /// Takes what happened to the request or to its refusal.
    fn step_open(&mut self, event: Event) -> (step: Step)
        requires
            old(self)@.expects(event@),
            old(self)@.stage is Sent || old(self)@.stage is Refused,
            event !is Cancelled,
        ensures
            (final(self)@, step@) == old(self)@.step(event@),
            final(self)@.stage matches StageView::Body(reader) ==> reader.wf(),
    {
        match event {
            Event::SendFailed(error) => {
                let context = text::concat(self.adapter.label(), " 请求失败");
                self.fail_with(context.as_str(), &error)
            },
            Event::Head { code, content_type, content_encoding } => self.take_head(
                code,
                content_type,
                content_encoding,
            ),
            Event::ErrorBody(body) => self.take_refusal(body.as_str()),
            Event::ErrorBodyFailed(error) => {
                let mut context = text::concat("读取 ", self.adapter.label());
                context.append(" 错误响应失败");
                self.fail_with(context.as_str(), &error)
            },
            _ => self.go(Stage::Closed, Want::Stop),
        }
    }

    /// Takes what happened to the body of the reply.
    fn step_reply(&mut self, event: Event) -> (step: Step)
        requires
            old(self)@.wf(),
            old(self)@.expects(event@),
            old(self)@.stage is Body || old(self)@.stage is Events || old(self)@.stage is Settling,
            event !is Cancelled,
        ensures
            (final(self)@, step@) == old(self)@.step(event@),
            final(self)@.stage matches StageView::Body(reader) ==> reader.wf(),
    {
        match event {
            Event::Chunk(chunk) => self.read(chunk),
            Event::ChunkFailed(error) => self.fail_body(&error),
            Event::Sse(data) => self.take_event(data.as_str()),
            Event::SseFailed(error) => self.fail_stream(&error),
            Event::SseEnd => self.go(Stage::Settling, Want::Settle),
            Event::Settled => self.settle(),
            _ => self.go(Stage::Closed, Want::Stop),
        }
    }

    /// Takes an event: what to report, and what to wait for next.
    pub fn step(&mut self, event: Event) -> (step: Step)
        requires
            old(self)@.wf(),
            old(self)@.expects(event@),
        ensures
            (final(self)@, step@) == old(self)@.step(event@),
            final(self)@.wf(),
    {
        proof {
            lemma_keeps_answer(self@, event@);
        }
        if let Event::Cancelled = event {
            return self.go(Stage::Closed, Want::Stop);
        }
        match &self.stage {
            Stage::Sent | Stage::Refused(_) => self.step_open(event),
            _ => self.step_reply(event),
        }
    }
}

proof fn lemma_whole_keeps_answer(x: ExchangeView, bytes: Seq<u8>)
    requires
        x.wf(),
    ensures
        x.whole(bytes).0.keeps_one(),
        x.whole(bytes).0.stage !is Body,
{
}

proof fn lemma_read_keeps_answer(x: ExchangeView, reader: ReaderView, chunk: Option<Seq<u8>>)
    requires
        x.wf(),
    ensures
        x.read(reader, chunk).0.keeps_one(),
{
    let (after, step) = reader.next(chunk, label_of(x.adapter), x.api_key, limit_of(x.adapter));
    if let BodyStepView::Json(bytes) = step {
        lemma_whole_keeps_answer(x, bytes);
    }
}

/// Whatever happens, an exchange keeps its answer in the one way that its adapter calls for.
proof fn lemma_keeps_answer(x: ExchangeView, event: EventView)
    requires
        x.wf(),
        x.expects(event),
    ensures
        x.step(event).0.keeps_one(),
{
    if let (StageView::Body(reader), EventView::Chunk(chunk)) = (x.stage, event) {
        lemma_read_keeps_answer(x, reader, chunk);
    }
}

} // verus!
