//! The exchange that follows a request to JEV. A service that is overloaded is asked again.
use super::providers::jev::{
    backoff_delay, describe_status, parse_choice, parse_retry_after, ChoiceView, JevChoice,
    MAX_OVERLOAD_RETRIES, MAX_RESPONSE_SIZE,
};
use super::shared::http::{
    format_reqwest_error, safe_preview, send_error, TransportError, TransportView,
};
use super::shared::payload::report;
use super::shared::stream::{chunk_bytes, lossy_text, status_text};
use super::{ChunkView, LlmChunk};
use crate::json::Json;
use crate::text;
use vstd::prelude::*;
use vstd::string::*;

verus! {

broadcast use {vstd::seq_lib::group_seq_properties, vstd::string::group_string_axioms};

/// Where an exchange stands.
#[derive(Debug)]
pub enum JevStage {
    /// The request is on its way.
    Sent,
    /// The body of the reply is being read; these bytes came in.
    Body(Vec<u8>),
    /// The request was refused with this status code; the reply may ask for a pause.
    Refused(u16, Option<u64>),
    /// The pause before the next attempt is on.
    Waiting,
    /// The choice is made.
    Settling(JevChoice),
    Closed,
}

/// Where an exchange stands.
#[verifier::ext_equal]
pub enum JevStageView {
    Sent,
    Body(Seq<u8>),
    Refused(u16, Option<u64>),
    Waiting,
    Settling(ChoiceView),
    Closed,
}

impl View for JevStage {
    type V = JevStageView;

    open spec fn view(&self) -> JevStageView {
        match self {
            JevStage::Sent => JevStageView::Sent,
            JevStage::Body(bytes) => JevStageView::Body(bytes@),
            JevStage::Refused(code, retry_after) => JevStageView::Refused(*code, *retry_after),
            JevStage::Waiting => JevStageView::Waiting,
            JevStage::Settling(choice) => JevStageView::Settling(choice@),
            JevStage::Closed => JevStageView::Closed,
        }
    }
}

/// What happened.
#[derive(Debug)]
pub enum JevEvent {
    /// The task was called off.
    Cancelled,
    SendFailed(TransportError),
    /// The head of the reply came in, with what it says under `Retry-After`.
    Head { code: u16, retry_after: Option<String> },
    /// The next chunk of the body came in, or its end.
    Chunk(Option<bytes::Bytes>),
    ChunkFailed(TransportError),
    /// The body of a refusal came in.
    ErrorBody(String),
    ErrorBodyFailed(TransportError),
    /// The pause is over.
    Waited,
    /// The choice is made, and the task was not called off.
    Settled,
}

/// What happened.
#[verifier::ext_equal]
pub enum JevEventView {
    Cancelled,
    SendFailed(TransportView),
    Head { code: u16, retry_after: Option<Seq<char>> },
    Chunk(Option<Seq<u8>>),
    ChunkFailed(TransportView),
    ErrorBody(Seq<char>),
    ErrorBodyFailed(TransportView),
    Waited,
    Settled,
}

impl View for JevEvent {
    type V = JevEventView;

    open spec fn view(&self) -> JevEventView {
        match self {
            JevEvent::Cancelled => JevEventView::Cancelled,
            JevEvent::SendFailed(error) => JevEventView::SendFailed(error@),
            JevEvent::Head { code, retry_after } => JevEventView::Head {
                code: *code,
                retry_after: text::opt_text(*retry_after),
            },
            JevEvent::Chunk(chunk) => JevEventView::Chunk(
                match chunk {
                    Some(chunk) => Some(super::shared::stream::bytes_held(*chunk)),
                    None => None,
                },
            ),
            JevEvent::ChunkFailed(error) => JevEventView::ChunkFailed(error@),
            JevEvent::ErrorBody(body) => JevEventView::ErrorBody(body@),
            JevEvent::ErrorBodyFailed(error) => JevEventView::ErrorBodyFailed(error@),
            JevEvent::Waited => JevEventView::Waited,
            JevEvent::Settled => JevEventView::Settled,
        }
    }
}

/// What the exchange waits for next.
#[derive(Debug, Clone, Copy, PartialEq, Eq, Structural)]
pub enum JevWant {
    /// The reply to the request, sent once more.
    Reply,
    Chunk,
    ErrorBody,
    /// A pause of so many seconds.
    Pause(u64),
    /// To hear whether the task was called off.
    Settle,
    Stop,
}

/// What comes of an event: what to report, and what to wait for.
#[derive(Debug)]
pub struct JevStep {
    pub chunks: Vec<LlmChunk>,
    pub want: JevWant,
}

/// What comes of an event.
#[verifier::ext_equal]
pub struct JevStepView {
    pub chunks: Seq<ChunkView>,
    pub want: JevWant,
}

impl View for JevStep {
    type V = JevStepView;

    open spec fn view(&self) -> JevStepView {
        JevStepView { chunks: super::chunk_views(self.chunks@), want: self.want }
    }
}

/// An exchange.
#[derive(Debug)]
pub struct JevExchange {
    pub api_key: String,
    pub option_count: usize,
    /// How often the request was sent again.
    pub attempt: usize,
    pub stage: JevStage,
}

/// What an exchange holds.
#[verifier::ext_equal]
pub struct JevExchangeView {
    pub api_key: Seq<char>,
    pub option_count: usize,
    pub attempt: usize,
    pub stage: JevStageView,
}

impl View for JevExchange {
    type V = JevExchangeView;

    open spec fn view(&self) -> JevExchangeView {
        JevExchangeView {
            api_key: self.api_key@,
            option_count: self.option_count,
            attempt: self.attempt,
            stage: self.stage@,
        }
    }
}

/// An exchange whose request is on its way.
pub open spec fn opened(api_key: Seq<char>, option_count: usize) -> JevExchangeView {
    JevExchangeView { api_key, option_count, attempt: 0, stage: JevStageView::Sent }
}

/// Whether a refusal with this status code comes before any work was done, so that asking
/// again costs nothing.
pub open spec fn is_overload(code: u16) -> bool {
    code == 429 || code == 529
}

/// What is said of a request that was refused for good.
pub open spec fn refusal_text(code: u16, body: Seq<char>, attempt: usize, api_key: Seq<char>) -> Seq<
    char,
> {
    "JEV 请求失败 (HTTP "@ + super::shared::stream::status_line(code) + " "@
        + super::providers::jev::status_hint(code) + "): "@ + super::shared::http::preview(
        body,
        api_key,
        300,
    ) + if attempt > 0 {
        "（已重试 "@ + text::decimal(attempt as nat) + " 次）"@
    } else {
        seq![]
    }
}

/// The complaint about a reply that is too long.
pub open spec fn too_long() -> Seq<char> {
    "JEV 响应超过 "@ + text::decimal((MAX_RESPONSE_SIZE / 1024 / 1024) as nat) + " MiB 限制"@
}

impl JevExchangeView {
    /// A request is sent again a few times at most, and a reply is never too long.
    pub open spec fn wf(self) -> bool {
        &&& self.attempt <= MAX_OVERLOAD_RETRIES
        &&& self.stage matches JevStageView::Body(bytes) ==> bytes.len() <= MAX_RESPONSE_SIZE
        &&& self.stage matches JevStageView::Refused(code, _) ==> 100 <= code < 1000
        &&& self.stage matches JevStageView::Settling(choice) ==> 1 <= choice.index
            <= self.option_count
    }

    /// Whether an event can happen where the exchange stands.
    pub open spec fn expects(self, event: JevEventView) -> bool {
        match event {
            JevEventView::Cancelled => self.stage !is Closed,
            JevEventView::SendFailed(_) => self.stage is Sent,
            JevEventView::Head { code, .. } => self.stage is Sent && 100 <= code < 1000,
            JevEventView::Chunk(_) | JevEventView::ChunkFailed(_) => self.stage is Body,
            JevEventView::ErrorBody(_) | JevEventView::ErrorBodyFailed(_) => self.stage is Refused,
            JevEventView::Waited => self.stage is Waiting,
            JevEventView::Settled => self.stage is Settling,
        }
    }

    /// The exchange at a stage, with nothing to report.
    pub open spec fn going(self, stage: JevStageView, want: JevWant) -> (
        JevExchangeView,
        JevStepView,
    ) {
        (JevExchangeView { stage, ..self }, JevStepView { chunks: seq![], want })
    }

    /// The exchange ended by an error.
    pub open spec fn failing(self, message: Seq<char>) -> (JevExchangeView, JevStepView) {
        (
            JevExchangeView { stage: JevStageView::Closed, ..self },
            JevStepView {
                chunks: seq![
                    ChunkView::Error(super::shared::http::redacted(message, self.api_key)),
                ],
                want: JevWant::Stop,
            },
        )
    }

    /// What comes of the next chunk of the body.
    pub open spec fn reading(self, bytes: Seq<u8>, chunk: Seq<u8>) -> (
        JevExchangeView,
        JevStepView,
    ) {
        if bytes.len() + chunk.len() > MAX_RESPONSE_SIZE {
            self.failing(too_long())
        } else {
            self.going(JevStageView::Body(bytes + chunk), JevWant::Chunk)
        }
    }

    /// What comes of the whole body.
    pub open spec fn whole(self, bytes: Seq<u8>) -> (JevExchangeView, JevStepView) {
        match crate::json::json_of_bytes(bytes) {
            Ok(value) => match super::providers::jev::choice_of(value, self.option_count) {
                Ok(choice) => self.going(JevStageView::Settling(choice), JevWant::Settle),
                Err(message) => self.failing(message),
            },
            Err(error) => self.failing(
                "解析 JEV JSON 响应失败: "@ + error + "; 响应摘要: "@
                    + super::shared::http::preview(
                    super::shared::stream::lossy(bytes),
                    self.api_key,
                    200,
                ),
            ),
        }
    }

    /// What comes of a refusal: a pause and another attempt, or the end.
    pub open spec fn refused(self, code: u16, retry_after: Option<u64>, body: Seq<char>) -> (
        JevExchangeView,
        JevStepView,
    ) {
        if is_overload(code) && self.attempt < MAX_OVERLOAD_RETRIES {
            (
                JevExchangeView {
                    attempt: (self.attempt + 1) as usize,
                    stage: JevStageView::Waiting,
                    ..self
                },
                JevStepView {
                    chunks: seq![],
                    want: JevWant::Pause(
                        super::providers::jev::delay_of(self.attempt as nat, retry_after) as u64,
                    ),
                },
            )
        } else {
            self.failing(refusal_text(code, body, self.attempt, self.api_key))
        }
    }

    /// What comes of an event.
    pub open spec fn step(self, event: JevEventView) -> (JevExchangeView, JevStepView) {
        match (self.stage, event) {
            (_, JevEventView::Cancelled) => self.going(JevStageView::Closed, JevWant::Stop),
            (JevStageView::Sent, JevEventView::SendFailed(error)) => self.failing(
                super::shared::http::transport_text("JEV 请求失败"@, error, self.api_key),
            ),
            (JevStageView::Sent, JevEventView::Head { code, retry_after }) => if 200 <= code
                < 300 {
                self.going(JevStageView::Body(seq![]), JevWant::Chunk)
            } else {
                self.going(
                    JevStageView::Refused(
                        code,
                        super::providers::jev::seconds_asked(retry_after),
                    ),
                    JevWant::ErrorBody,
                )
            },
            (JevStageView::Body(bytes), JevEventView::Chunk(Some(chunk))) => self.reading(
                bytes,
                chunk,
            ),
            (JevStageView::Body(bytes), JevEventView::Chunk(None)) => self.whole(bytes),
            (JevStageView::Body(_), JevEventView::ChunkFailed(error)) => self.failing(
                super::shared::http::transport_text("读取 JEV 响应失败"@, error, self.api_key),
            ),
            (
                JevStageView::Refused(code, retry_after),
                JevEventView::ErrorBody(body),
            ) => self.refused(code, retry_after, body),
            (JevStageView::Refused(_, _), JevEventView::ErrorBodyFailed(error)) => self.failing(
                super::shared::http::transport_text("读取 JEV 错误响应失败"@, error, self.api_key),
            ),
            (JevStageView::Waiting, JevEventView::Waited) => self.going(
                JevStageView::Sent,
                JevWant::Reply,
            ),
            (JevStageView::Settling(choice), JevEventView::Settled) => (
                JevExchangeView { stage: JevStageView::Closed, ..self },
                JevStepView {
                    chunks: seq![
                        ChunkView::Thinking(choice.summary()),
                        ChunkView::Done(text::decimal(choice.index as nat)),
                    ],
                    want: JevWant::Stop,
                },
            ),
            _ => self.going(self.stage, JevWant::Stop),
        }
    }
}

/// The complaint about a reply that is too long.
fn describe_too_long() -> (r: String)
    ensures
        r@ == too_long(),
{
    let size: u64 = (MAX_RESPONSE_SIZE / 1024 / 1024) as u64;
    let mut r = text::concat("JEV 响应超过 ", text::decimal_text(size).as_str());
    r.append(" MiB 限制");
    r
}

impl JevExchange {
    /// An exchange whose request is on its way.
    pub fn open(api_key: &str, option_count: usize) -> (r: JevExchange)
        ensures
            r@ == opened(api_key@, option_count),
            r@.wf(),
    {
        JevExchange {
            api_key: api_key.to_owned(),
            option_count,
            attempt: 0,
            stage: JevStage::Sent,
        }
    }

    /// The exchange at a stage, with nothing to report.
    fn go(&mut self, stage: JevStage, want: JevWant) -> (step: JevStep)
        ensures
            (final(self)@, step@) == old(self)@.going(stage@, want),
    {
        self.stage = stage;
        let step = JevStep { chunks: Vec::new(), want };
        assert(step@.chunks =~= seq![]);
        step
    }

    /// Ends the exchange with an error.
    fn fail(&mut self, message: &str) -> (step: JevStep)
        ensures
            (final(self)@, step@) == old(self)@.failing(message@),
    {
        self.stage = JevStage::Closed;
        let mut chunks: Vec<LlmChunk> = Vec::new();
        send_error(&mut chunks, self.api_key.as_str(), message);
        let step = JevStep { chunks, want: JevWant::Stop };
        assert(step@ =~= old(self)@.failing(message@).1);
        step
    }

    /// Ends the exchange with a transport error.
    fn fail_with(&mut self, context: &str, error: &TransportError) -> (step: JevStep)
        ensures
            (final(self)@, step@) == old(self)@.failing(
                super::shared::http::transport_text(context@, error@, old(self)@.api_key),
            ),
    {
        let message = format_reqwest_error(context, error, self.api_key.as_str());
        self.fail(message.as_str())
    }

    /// Adds a chunk to the bytes of the body.
    fn read_chunk(&mut self, bytes: Vec<u8>, chunk: &bytes::Bytes) -> (step: JevStep)
        requires
            bytes@.len() <= MAX_RESPONSE_SIZE,
        ensures
            (final(self)@, step@) == old(self)@.reading(
                bytes@,
                super::shared::stream::bytes_held(*chunk),
            ),
    {
        let mut bytes = bytes;
        let part = chunk_bytes(chunk);
        if part.len() > MAX_RESPONSE_SIZE - bytes.len() {
            return self.fail(describe_too_long().as_str());
        }
        let ghost before = bytes@;
        bytes.extend_from_slice(part);
        assert(bytes@ =~= before + part@);
        self.go(JevStage::Body(bytes), JevWant::Chunk)
    }

    /// Takes the whole body.
    fn read_whole(&mut self, bytes: &[u8]) -> (step: JevStep)
        ensures
            (final(self)@, step@) == old(self)@.whole(bytes@),
    {
        match Json::parse_bytes(bytes) {
            Ok(value) => match parse_choice(&value, self.option_count) {
                Ok(choice) => self.go(JevStage::Settling(choice), JevWant::Settle),
                Err(message) => self.fail(message.as_str()),
            },
            Err(error) => {
                let mut message = text::concat("解析 JEV JSON 响应失败: ", error.as_str());
                message.append("; 响应摘要: ");
                message.append(
                    safe_preview(lossy_text(bytes).as_str(), self.api_key.as_str(), 200).as_str(),
                );
                self.fail(message.as_str())
            },
        }
    }

    /// Takes the next chunk of the body, or its end.
    fn read_success_body(&mut self, chunk: Option<bytes::Bytes>) -> (step: JevStep)
        requires
            old(self)@.wf(),
            old(self)@.stage is Body,
        ensures
            (final(self)@, step@) == match chunk {
                Some(chunk) => old(self)@.reading(
                    old(self)@.stage->Body_0,
                    super::shared::stream::bytes_held(chunk),
                ),
                None => old(self)@.whole(old(self)@.stage->Body_0),
            },
    {
        let mut stage = JevStage::Closed;
        std::mem::swap(&mut stage, &mut self.stage);
        let bytes = match stage {
            JevStage::Body(bytes) => bytes,
            _ => Vec::new(),
        };
        match chunk {
            Some(chunk) => self.read_chunk(bytes, &chunk),
            None => self.read_whole(&bytes),
        }
    }

    /// Takes the body of a refusal.
    fn take_refusal(&mut self, body: &str) -> (step: JevStep)
        requires
            old(self)@.wf(),
            old(self)@.stage is Refused,
        ensures
            (final(self)@, step@) == old(self)@.refused(
                old(self)@.stage->Refused_0,
                old(self)@.stage->Refused_1,
                body@,
            ),
    {
        let (code, retry_after): (u16, Option<u64>) = match &self.stage {
            JevStage::Refused(code, retry_after) => (*code, *retry_after),
            _ => (100, None),
        };
        if (code == 429 || code == 529) && self.attempt < MAX_OVERLOAD_RETRIES {
            let delay: u64 = backoff_delay(self.attempt, retry_after);
            self.attempt = self.attempt + 1;
            return self.go(JevStage::Waiting, JevWant::Pause(delay));
        }
        let mut message = text::concat("JEV 请求失败 (HTTP ", status_text(code).as_str());
        message.append(" ");
        message.append(describe_status(code));
        message.append("): ");
        message.append(safe_preview(body, self.api_key.as_str(), 300).as_str());
        let ghost start = message@;
        if self.attempt > 0 {
            let mut retried = text::concat(
                "（已重试 ",
                text::decimal_text(self.attempt as u64).as_str(),
            );
            retried.append(" 次）");
            message.append(retried.as_str());
        } else {
            assert(start + Seq::<char>::empty() =~= start);
        }
        self.fail(message.as_str())
    }

    /// Reports the choice.
    fn settle(&mut self) -> (step: JevStep)
        requires
            old(self)@.stage is Settling,
        ensures
            (final(self)@, step@) == old(self)@.step(JevEventView::Settled),
    {
        let mut stage = JevStage::Closed;
        std::mem::swap(&mut stage, &mut self.stage);
        let mut chunks: Vec<LlmChunk> = Vec::new();
        if let JevStage::Settling(choice) = stage {
            report(&mut chunks, LlmChunk::Thinking(choice.summary()));
            report(&mut chunks, LlmChunk::Done(text::decimal_text(choice.index as u64)));
        }
        let step = JevStep { chunks, want: JevWant::Stop };
        assert(step@ =~= old(self)@.step(JevEventView::Settled).1);
        step
    }

    /// Takes an event: what to report, and what to wait for next.
    pub fn step(&mut self, event: JevEvent) -> (step: JevStep)
        requires
            old(self)@.wf(),
            old(self)@.expects(event@),
        ensures
            (final(self)@, step@) == old(self)@.step(event@),
            final(self)@.wf(),
    {
        match event {
            JevEvent::Cancelled => self.go(JevStage::Closed, JevWant::Stop),
            JevEvent::SendFailed(error) => self.fail_with("JEV 请求失败", &error),
            JevEvent::Head { code, retry_after } => {
                if 200 <= code && code < 300 {
                    let bytes: Vec<u8> = Vec::new();
                    assert(bytes@ =~= seq![]);
                    self.go(JevStage::Body(bytes), JevWant::Chunk)
                } else {
                    let seconds = match &retry_after {
                        Some(retry_after) => parse_retry_after(Some(retry_after.as_str())),
                        None => None,
                    };
                    self.go(JevStage::Refused(code, seconds), JevWant::ErrorBody)
                }
            },
            JevEvent::Chunk(chunk) => self.read_success_body(chunk),
            JevEvent::ChunkFailed(error) => self.fail_with("读取 JEV 响应失败", &error),
            JevEvent::ErrorBody(body) => self.take_refusal(body.as_str()),
            JevEvent::ErrorBodyFailed(error) => self.fail_with("读取 JEV 错误响应失败", &error),
            JevEvent::Waited => self.go(JevStage::Sent, JevWant::Reply),
            JevEvent::Settled => self.settle(),
        }
    }
}

} // verus!
