//! Chat Completions: OpenAI, xAI, and the services that extend the protocol.
use crate::config::{ConfigView, LlmConfig};
use crate::json::{put, Json};
use crate::llm::exchange::{Adapter, Exchange};
use crate::llm::prompt::{build_chat_prompt, build_quiz_prompt};
use crate::llm::protocol::{endpoint, Protocol};
use crate::llm::request::{
    effort_or_default, post, HttpRequest, HttpRequestView, QuizRequest, QuizView,
};
use crate::llm::shared::errors::{extract_api_error, format_api_error};
use crate::llm::shared::payload::{if_filled, ParsedPayload};
use crate::llm::url::parse_url;
use crate::text;
use vstd::prelude::*;
use vstd::string::*;

verus! {

broadcast use {vstd::seq_lib::group_seq_properties, vstd::string::group_string_axioms};

/// How the adapter is called in messages.
pub const LABEL: &'static str = "LLM";

pub const MAX_JSON_RESPONSE_SIZE: usize = 8 * 1024 * 1024;

pub const MAX_VISIBLE_OUTPUT_TOKENS: u64 = 128;

/// A client for Chat Completions.
#[derive(Debug, PartialEq, Eq)]
pub struct OpenAiChatClient {
    pub endpoint: String,
    pub model: String,
    pub api_key: String,
    pub enable_thinking: bool,
    pub reasoning_effort: String,
}

/// The dialects of Chat Completions.
#[derive(Debug, Clone, Copy, PartialEq, Eq, Structural)]
pub enum ApiDialect {
    OpenAi,
    XAi,
    Extended,
}

/// Whether a model is one of xAI's Grok models, by its name.
pub open spec fn is_grok(model: Seq<char>) -> bool {
    "grok-"@.is_prefix_of(text::lower(text::trim(model)))
}

/// The dialect that a host speaks. A relay for Grok speaks xAI's.
pub open spec fn dialect_of(host: Option<Seq<char>>, model: Seq<char>) -> ApiDialect {
    if host == Some("api.openai.com"@) {
        ApiDialect::OpenAi
    } else if host == Some("api.x.ai"@) || is_grok(model) {
        ApiDialect::XAi
    } else {
        ApiDialect::Extended
    }
}

/// The host of an address, if it has one.
pub open spec fn host_of(url: Seq<char>) -> Option<Seq<char>> {
    match crate::llm::url::url_of(url) {
        Some(parts) => parts.host,
        None => None,
    }
}

/// The effort in xAI's terms. Its models always reason; `low` is the least.
pub open spec fn xai_effort(thinking: bool, saved: Seq<char>) -> Seq<char> {
    let effort = text::lower(text::trim(saved));
    if !thinking || effort == text::lower("low"@) {
        "low"@
    } else if effort == text::lower("medium"@) {
        "medium"@
    } else if effort == text::lower("high"@) {
        "high"@
    } else if effort == text::lower("max"@) || effort == text::lower("xhigh"@) {
        "xhigh"@
    } else {
        "high"@
    }
}

/// The part of the request that all dialects share.
pub open spec fn common_entries(model: Seq<char>, prompt: Seq<char>) -> Seq<
    (Seq<char>, crate::json::JsonView),
> {
    seq![
        ("model"@, crate::json::JsonView::Text(model)),
        ("stream"@, crate::json::JsonView::Bool(true)),
        ("messages"@, crate::json::JsonView::Array(seq![
            crate::json::JsonView::Object(seq![
                ("role"@, crate::json::JsonView::Text("user"@)),
                ("content"@, crate::json::JsonView::Text(prompt)),
            ]),
        ])),
    ]
}

/// The part of the request in which the dialects differ.
pub open spec fn dialect_entries(dialect: ApiDialect, thinking: bool, effort: Seq<char>) -> Seq<
    (Seq<char>, crate::json::JsonView),
> {
    let plain_effort = if thinking {
        effort
    } else {
        "none"@
    };
    match dialect {
        ApiDialect::OpenAi => seq![
            ("max_completion_tokens"@, crate::json::number_view(MAX_VISIBLE_OUTPUT_TOKENS)),
            ("reasoning_effort"@, crate::json::JsonView::Text(plain_effort)),
        ],
        ApiDialect::XAi => seq![
            ("max_completion_tokens"@, crate::json::number_view(MAX_VISIBLE_OUTPUT_TOKENS)),
            ("reasoning_effort"@, crate::json::JsonView::Text(xai_effort(thinking, effort))),
        ],
        ApiDialect::Extended => seq![
            ("max_tokens"@, crate::json::number_view(MAX_VISIBLE_OUTPUT_TOKENS)),
            ("enable_thinking"@, crate::json::JsonView::Bool(thinking)),
            ("thinking"@, crate::json::JsonView::Object(seq![
                ("type"@, crate::json::JsonView::Text(
                    if thinking {
                        "enabled"@
                    } else {
                        "disabled"@
                    },
                )),
            ])),
            ("reasoning_effort"@, crate::json::JsonView::Text(plain_effort)),
        ],
    }
}

/// The body of a request.
pub open spec fn request_body(
    dialect: ApiDialect,
    model: Seq<char>,
    prompt: Seq<char>,
    thinking: bool,
    effort: Seq<char>,
) -> crate::json::JsonView {
    crate::json::JsonView::Object(
        common_entries(model, prompt) + dialect_entries(dialect, thinking, effort),
    )
}

/// The text of one part of a content list.
pub open spec fn part_text(part: crate::json::JsonView) -> Result<Seq<char>, Seq<char>> {
    match part {
        crate::json::JsonView::Null => Ok(seq![]),
        crate::json::JsonView::Text(text) => Ok(text),
        crate::json::JsonView::Object(entries) => {
            let plain = match part.text_at("type"@) {
                Some(kind) => kind == "text"@ || kind == "output_text"@,
                None => true,
            };
            if !plain {
                Err("LLM content 数组包含不支持的内容类型"@)
            } else {
                match part.text_at("text"@) {
                    Some(text) => Ok(text),
                    None => if entries.len() == 0 {
                        Ok(seq![])
                    } else {
                        Err("LLM content 数组包含无法识别的文本结构"@)
                    },
                }
            }
        },
        _ => Err("LLM content 数组包含不支持的内容类型"@),
    }
}

/// The texts of the parts of a content list, one behind the other; the first part that has
/// none spoils it.
pub open spec fn parts_text(parts: Seq<crate::json::JsonView>) -> Result<Seq<char>, Seq<char>>
    decreases parts.len(),
{
    if parts.len() == 0 {
        Ok(seq![])
    } else {
        match parts_text(parts.drop_last()) {
            Ok(head) => match part_text(parts.last()) {
                Ok(tail) => Ok(head + tail),
                Err(message) => Err(message),
            },
            Err(message) => Err(message),
        }
    }
}

/// The text of a content value, where it is not empty.
pub open spec fn content_text(value: Option<crate::json::JsonView>) -> Result<
    Option<Seq<char>>,
    Seq<char>,
> {
    match value {
        None | Some(crate::json::JsonView::Null) => Ok(None),
        Some(crate::json::JsonView::Text(text)) => Ok(crate::llm::shared::payload::filled(text)),
        Some(crate::json::JsonView::Array(parts)) => match parts_text(parts) {
            Ok(text) => Ok(crate::llm::shared::payload::filled(text)),
            Err(message) => Err(message),
        },
        Some(crate::json::JsonView::Object(entries)) => match crate::json::JsonView::Object(
            entries,
        ).text_at("text"@) {
            Some(text) => Ok(crate::llm::shared::payload::filled(text)),
            None => Err("LLM content 使用了无法识别的对象结构"@),
        },
        Some(_) => Err("LLM content 不是文本或文本数组"@),
    }
}

/// The object under a key, if it is one.
pub open spec fn object_at(value: crate::json::JsonView, key: Seq<char>) -> Option<
    crate::json::JsonView,
> {
    match value.get(key) {
        Some(inner) => if inner is Object {
            Some(inner)
        } else {
            None
        },
        None => None,
    }
}

/// The message of the first choice: what it adds, or else the whole of it.
pub open spec fn message_of(value: crate::json::JsonView) -> Option<crate::json::JsonView> {
    match value.items_at("choices"@) {
        Some(choices) => if choices.len() == 0 {
            None
        } else {
            match object_at(choices[0], "delta"@) {
                Some(delta) => Some(delta),
                None => object_at(choices[0], "message"@),
            }
        },
        None => None,
    }
}

/// What a message brings.
pub open spec fn message_payload(message: crate::json::JsonView) -> Result<
    crate::llm::shared::payload::PayloadView,
    Seq<char>,
> {
    let reasoning = match message.get("reasoning_content"@) {
        Some(reasoning) => Some(reasoning),
        None => message.get("reasoning"@),
    };
    match content_text(reasoning) {
        Ok(reasoning) => match content_text(message.get("content"@)) {
            Ok(content) => Ok(crate::llm::shared::payload::PayloadView { reasoning, content }),
            Err(error) => Err(error),
        },
        Err(error) => Err(error),
    }
}

/// What the choices of a reply bring, if there are any.
pub open spec fn choices_payload(value: crate::json::JsonView) -> Result<
    Option<crate::llm::shared::payload::PayloadView>,
    Seq<char>,
> {
    match message_of(value) {
        Some(message) => match message_payload(message) {
            Ok(payload) => Ok(Some(payload)),
            Err(error) => Err(error),
        },
        None => Ok(None),
    }
}

/// What a reply brings, if it brings anything; an error where it reports one.
pub open spec fn payload_of(value: crate::json::JsonView) -> Result<
    Option<crate::llm::shared::payload::PayloadView>,
    Seq<char>,
> {
    match crate::llm::shared::errors::api_error(value) {
        Some(message) => Err(crate::llm::shared::errors::api_error_text("LLM"@, message)),
        None => choices_payload(value),
    }
}

/// What the outcome of [`parse_payload`] holds.
pub open spec fn payload_view(payload: Result<Option<ParsedPayload>, String>) -> Result<
    Option<crate::llm::shared::payload::PayloadView>,
    Seq<char>,
> {
    match payload {
        Ok(Some(payload)) => Ok(Some(payload@)),
        Ok(None) => Ok(None),
        Err(message) => Err(message@),
    }
}

/// What the outcome of [`extract_text`] holds.
pub open spec fn text_view(text: Result<Option<String>, String>) -> Result<
    Option<Seq<char>>,
    Seq<char>,
> {
    match text {
        Ok(text) => Ok(text::opt_text(text)),
        Err(message) => Err(message@),
    }
}

/// What a whole reply brings; one without a choice is an error.
pub open spec fn whole_reply(payload: Result<
    Option<crate::llm::shared::payload::PayloadView>,
    Seq<char>,
>) -> Result<crate::llm::shared::payload::PayloadView, Seq<char>> {
    match payload {
        Ok(Some(payload)) => Ok(payload),
        Ok(None) => Err("LLM JSON 响应不包含 choices[0] 内容"@),
        Err(message) => Err(message),
    }
}

/// What an event brings; one without a choice brings nothing.
pub open spec fn event_reply(payload: Result<
    Option<crate::llm::shared::payload::PayloadView>,
    Seq<char>,
>) -> Result<crate::llm::shared::payload::PayloadView, Seq<char>> {
    match payload {
        Ok(Some(payload)) => Ok(payload),
        Ok(None) => Ok(crate::llm::shared::payload::nothing()),
        Err(message) => Err(message),
    }
}

/// Whether a model is one of xAI's Grok models, by its name.
pub fn names_grok(model: &str) -> (r: bool)
    ensures
        r == is_grok(model@),
{
    let trimmed = text::trimmed(model);
    text::begins_with(text::ascii_lowercase(trimmed.as_str()).as_str(), "grok-")
}

/// The dialect that a host speaks.
pub fn dialect_of_host(host: Option<&str>, model: &str) -> (r: ApiDialect)
    ensures
        r == dialect_of(text::opt_str(host), model@),
{
    if let Some(host) = host {
        if text::same(host, "api.openai.com") {
            return ApiDialect::OpenAi;
        }
        if text::same(host, "api.x.ai") {
            return ApiDialect::XAi;
        }
    }
    if names_grok(model) {
        ApiDialect::XAi
    } else {
        ApiDialect::Extended
    }
}

/// The host of an address, if it has one.
pub(crate) fn host_in(url: &str) -> (r: Option<String>)
    ensures
        text::opt_text(r) == host_of(url@),
{
    match parse_url(url) {
        Some(parts) => parts.host,
        None => None,
    }
}

/// The dialect that an endpoint speaks.
pub fn api_dialect(endpoint: &str, model: &str) -> (r: ApiDialect)
    ensures
        r == dialect_of(host_of(endpoint@), model@),
{
    match host_in(endpoint) {
        Some(host) => dialect_of_host(Some(host.as_str()), model),
        None => dialect_of_host(None, model),
    }
}

/// The effort in xAI's terms. An effort that it does not know counts as `high`.
pub fn xai_reasoning_effort(enable_thinking: bool, saved_effort: &str) -> (r: &'static str)
    ensures
        r@ == xai_effort(enable_thinking, saved_effort@),
{
    if !enable_thinking {
        return "low";
    }
    let trimmed = text::trimmed(saved_effort);
    let effort = trimmed.as_str();
    if text::same_ignoring_case(effort, "low") {
        "low"
    } else if text::same_ignoring_case(effort, "medium") {
        "medium"
    } else if text::same_ignoring_case(effort, "high") {
        "high"
    } else if text::same_ignoring_case(effort, "max") || text::same_ignoring_case(
        effort,
        "xhigh",
    ) {
        "xhigh"
    } else {
        "high"
    }
}

/// The body of a request.
pub fn build_request_body(
    dialect: ApiDialect,
    model: &str,
    prompt: &str,
    enable_thinking: bool,
    reasoning_effort: &str,
) -> (r: Json)
    ensures
        r@ == request_body(dialect, model@, prompt@, enable_thinking, reasoning_effort@),
{
    let mut message: Vec<(String, Json)> = Vec::new();
    put(&mut message, "role", Json::text("user"));
    put(&mut message, "content", Json::text(prompt));
    assert(crate::json::entry_views(message@) =~= seq![
        ("role"@, crate::json::JsonView::Text("user"@)),
        ("content"@, crate::json::JsonView::Text(prompt@)),
    ]);
    let mut body: Vec<(String, Json)> = Vec::new();
    put(&mut body, "model", Json::text(model));
    put(&mut body, "stream", Json::Bool(true));
    put(&mut body, "messages", Json::list_of(Json::object(message)));
    assert(crate::json::entry_views(body@) =~= common_entries(model@, prompt@));
    let effort = if enable_thinking {
        reasoning_effort
    } else {
        "none"
    };
    match dialect {
        ApiDialect::OpenAi => {
            put(&mut body, "max_completion_tokens", Json::number(MAX_VISIBLE_OUTPUT_TOKENS));
            put(&mut body, "reasoning_effort", Json::text(effort));
        },
        ApiDialect::XAi => {
            // `max_tokens` is out of use at xAI; this one bounds the visible answer.
            put(&mut body, "max_completion_tokens", Json::number(MAX_VISIBLE_OUTPUT_TOKENS));
            put(
                &mut body,
                "reasoning_effort",
                Json::text(xai_reasoning_effort(enable_thinking, reasoning_effort)),
            );
        },
        ApiDialect::Extended => {
            put(&mut body, "max_tokens", Json::number(MAX_VISIBLE_OUTPUT_TOKENS));
            put(&mut body, "enable_thinking", Json::Bool(enable_thinking));
            let switch = if enable_thinking {
                "enabled"
            } else {
                "disabled"
            };
            put(&mut body, "thinking", Json::object_of("type", Json::text(switch)));
            put(&mut body, "reasoning_effort", Json::text(effort));
        },
    }
    assert(crate::json::entry_views(body@) =~= common_entries(model@, prompt@) + dialect_entries(
        dialect,
        enable_thinking,
        reasoning_effort@,
    ));
    Json::object(body)
}

/// The text of one part of a content list.
fn extract_part(part: &Json) -> (r: Result<String, String>)
    ensures
        match r {
            Ok(text) => part_text(part@) == Ok::<Seq<char>, Seq<char>>(text@),
            Err(message) => part_text(part@) == Err::<Seq<char>, Seq<char>>(message@),
        },
{
    match part {
        Json::Null => Ok(String::new()),
        Json::Text(text) => Ok(text.clone()),
        Json::Object(entries) => {
            let plain = match part.str_at("type") {
                Some(kind) => text::same(kind, "text") || text::same(kind, "output_text"),
                None => true,
            };
            if !plain {
                return Err("LLM content 数组包含不支持的内容类型".to_owned());
            }
            match part.str_at("text") {
                Some(text) => Ok(text.to_owned()),
                None => if entries.len() == 0 {
                    Ok(String::new())
                } else {
                    Err("LLM content 数组包含无法识别的文本结构".to_owned())
                },
            }
        },
        _ => Err("LLM content 数组包含不支持的内容类型".to_owned()),
    }
}

/// The texts of the parts of a content list, one behind the other.
fn extract_parts(parts: &Vec<Json>) -> (r: Result<String, String>)
    ensures
        match r {
            Ok(text) => parts_text(crate::json::json_views(parts@)) == Ok::<Seq<char>, Seq<char>>(
                text@,
            ),
            Err(message) => parts_text(crate::json::json_views(parts@)) == Err::<
                Seq<char>,
                Seq<char>,
            >(message@),
        },
{
    let ghost views = crate::json::json_views(parts@);
    let mut text = String::new();
    let mut i: usize = 0;
    assert(views.take(0) =~= seq![]);
    while i < parts.len()
        invariant
            i <= parts@.len(),
            views == crate::json::json_views(parts@),
            parts_text(views.take(i as int)) == Ok::<Seq<char>, Seq<char>>(text@),
        decreases parts@.len() - i,
    {
        assert(views.take(i + 1).drop_last() =~= views.take(i as int));
        assert(views.take(i + 1).last() == parts@[i as int]@);
        match extract_part(&parts[i]) {
            Ok(part) => {
                text.append(part.as_str());
            },
            Err(message) => {
                proof {
                    lemma_parts_spoilt(views, i + 1);
                }
                return Err(message);
            },
        }
        i += 1;
    }
    assert(views.take(i as int) =~= views);
    Ok(text)
}

/// An error among the first parts is the error of all parts.
proof fn lemma_parts_spoilt(parts: Seq<crate::json::JsonView>, n: int)
    requires
        0 <= n <= parts.len(),
        parts_text(parts.take(n)) is Err,
    ensures
        parts_text(parts) == parts_text(parts.take(n)),
    decreases parts.len() - n,
{
    if n == parts.len() {
        assert(parts.take(n) =~= parts);
    } else {
        assert(parts.take(n + 1).drop_last() =~= parts.take(n));
        lemma_parts_spoilt(parts, n + 1);
    }
}

/// The text of a content value, where it is not empty.
pub fn extract_text(value: Option<&Json>) -> (r: Result<Option<String>, String>)
    ensures
        text_view(r) == content_text(crate::json::opt_json(value)),
{
    let value = match value {
        Some(value) => value,
        None => {
            return Ok(None);
        },
    };
    match value {
        Json::Null => Ok(None),
        Json::Text(text) => Ok(if_filled(text.clone())),
        Json::Array(_) => match value.as_array() {
            Some(parts) => match extract_parts(parts) {
                Ok(text) => Ok(if_filled(text)),
                Err(message) => Err(message),
            },
            None => Ok(None),
        },
        Json::Object(_) => match value.str_at("text") {
            Some(text) => Ok(if_filled(text.to_owned())),
            None => Err("LLM content 使用了无法识别的对象结构".to_owned()),
        },
        _ => Err("LLM content 不是文本或文本数组".to_owned()),
    }
}

/// The object under a key, if it is one.
fn find_object<'a>(value: &'a Json, key: &str) -> (r: Option<&'a Json>)
    ensures
        crate::json::opt_json(r) == object_at(value@, key@),
{
    match value.get(key) {
        Some(inner) => match inner {
            Json::Object(_) => Some(inner),
            _ => None,
        },
        None => None,
    }
}

/// What the choices of a reply bring, if there are any.
pub fn parse_choices(value: &Json) -> (r: Result<Option<ParsedPayload>, String>)
    ensures
        payload_view(r) == choices_payload(value@),
{
    let choices = match value.array_at("choices") {
        Some(choices) => choices,
        None => {
            return Ok(None);
        },
    };
    if choices.len() == 0 {
        return Ok(None);
    }
    assert(crate::json::json_views(choices@)[0] == choices@[0]@);
    let message = match find_object(&choices[0], "delta") {
        Some(delta) => delta,
        None => match find_object(&choices[0], "message") {
            Some(message) => message,
            None => {
                return Ok(None);
            },
        },
    };
    let reasoning = match message.get("reasoning_content") {
        Some(reasoning) => Some(reasoning),
        None => message.get("reasoning"),
    };
    let reasoning = match extract_text(reasoning) {
        Ok(reasoning) => reasoning,
        Err(error) => {
            return Err(error);
        },
    };
    match extract_text(message.get("content")) {
        Ok(content) => Ok(Some(ParsedPayload { reasoning, content })),
        Err(error) => Err(error),
    }
}

/// What a reply brings, if it brings anything; an error where it reports one.
pub fn parse_payload(value: &Json) -> (r: Result<Option<ParsedPayload>, String>)
    ensures
        payload_view(r) == payload_of(value@),
{
    match extract_api_error(value) {
        Some(message) => Err(format_api_error(LABEL, message.as_str())),
        None => parse_choices(value),
    }
}

/// What a whole reply brings; one without a choice is an error.
pub(crate) fn read_whole(payload: Result<Option<ParsedPayload>, String>) -> (r: Result<
    ParsedPayload,
    String,
>)
    ensures
        crate::llm::shared::payload::reply_view(r) == whole_reply(payload_view(payload)),
{
    match payload {
        Ok(Some(payload)) => Ok(payload),
        Ok(None) => Err("LLM JSON 响应不包含 choices[0] 内容".to_owned()),
        Err(message) => Err(message),
    }
}

/// What an event brings; one without a choice brings nothing.
pub(crate) fn read_event(payload: Result<Option<ParsedPayload>, String>) -> (r: Result<
    ParsedPayload,
    String,
>)
    ensures
        crate::llm::shared::payload::reply_view(r) == event_reply(payload_view(payload)),
{
    match payload {
        Ok(Some(payload)) => Ok(payload),
        Ok(None) => Ok(ParsedPayload { reasoning: None, content: None }),
        Err(message) => Err(message),
    }
}

impl OpenAiChatClient {
    /// Whether this client is the one that a configuration calls for.
    pub open spec fn made_from(self, config: ConfigView) -> bool {
        &&& self.endpoint@ == crate::llm::protocol::endpoint_of(
                Protocol::OpenAiChat,
                config.base_url,
                config.model,
            )
        &&& self.model@ == config.model
        &&& self.api_key@ == config.api_key
        &&& self.enable_thinking == config.enable_thinking
        &&& self.reasoning_effort@ == crate::llm::request::effort_or_high(config.reasoning_effort)
    }

    pub fn new(config: &LlmConfig) -> (r: Self)
        ensures
            r.made_from(config@),
    {
        OpenAiChatClient {
            endpoint: endpoint(
                Protocol::OpenAiChat,
                config.base_url.as_str(),
                config.model.as_str(),
            ),
            model: config.model.clone(),
            api_key: config.api_key.clone(),
            enable_thinking: config.enable_thinking,
            reasoning_effort: effort_or_default(config.reasoning_effort.as_str()),
        }
    }

    /// The request that asks the model.
    pub open spec fn request(self, quiz: QuizView) -> HttpRequestView {
        crate::llm::request::posted(
            self.endpoint@,
            Protocol::OpenAiChat,
            self.api_key@,
            request_body(
                dialect_of(host_of(self.endpoint@), self.model@),
                self.model@,
                crate::llm::prompt::quiz_prompt(
                    quiz.categories,
                    crate::llm::prompt::chat_prompt(quiz.question, quiz.options),
                    self.enable_thinking,
                ),
                self.enable_thinking,
                self.reasoning_effort@,
            ),
        )
    }

    /// The request that asks the model, and the exchange that follows it.
    pub fn ask(&self, request: &QuizRequest) -> (r: (HttpRequest, Exchange))
        ensures
            r.0@ == self.request(request@),
            r.1@ == crate::llm::exchange::opened(Adapter::OpenAiChat, self.api_key@),
            r.1@.wf(),
    {
        let prompt = build_quiz_prompt(
            request.categories,
            build_chat_prompt(request.question, request.options).as_str(),
            self.enable_thinking,
        );
        let body = build_request_body(
            api_dialect(self.endpoint.as_str(), self.model.as_str()),
            self.model.as_str(),
            prompt.as_str(),
            self.enable_thinking,
            self.reasoning_effort.as_str(),
        );
        (
            post(self.endpoint.as_str(), Protocol::OpenAiChat, self.api_key.as_str(), body),
            Exchange::open(Adapter::OpenAiChat, self.api_key.as_str()),
        )
    }
}

} // verus!
