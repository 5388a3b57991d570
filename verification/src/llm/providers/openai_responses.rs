//! OpenAI Responses, which xAI speaks too, with efforts of its own.
use super::openai_chat::{host_in, names_grok};
use crate::config::{ConfigView, LlmConfig};
use crate::json::{put, Json, JsonView};
use crate::llm::exchange::{Adapter, Exchange};
use crate::llm::prompt::{build_chat_prompt, build_quiz_prompt};
use crate::llm::protocol::{endpoint, Protocol};
use crate::llm::request::{
    effort_or_default, post, HttpRequest, HttpRequestView, QuizRequest, QuizView,
};
use crate::llm::shared::errors::{extract_api_error, format_api_error};
use crate::llm::shared::payload::{if_filled, non_empty, ParsedPayload, PayloadView};
use crate::text;
use vstd::prelude::*;
use vstd::string::*;

verus! {

broadcast use {vstd::seq_lib::group_seq_properties, vstd::string::group_string_axioms};

/// How the adapter is called in messages.
pub const LABEL: &'static str = "OpenAI Responses";

pub const MAX_JSON_RESPONSE_SIZE: usize = 8 * 1024 * 1024;

pub const MAX_VISIBLE_OUTPUT_TOKENS: u64 = 128;

/// A client for Responses.
#[derive(Debug, PartialEq, Eq)]
pub struct OpenAiResponsesClient {
    pub endpoint: String,
    pub model: String,
    pub api_key: String,
    pub enable_thinking: bool,
    pub reasoning_effort: String,
}

/// Whether it is xAI that is asked: by the host, or, for a relay, by the model's name.
pub open spec fn asks_xai(host: Option<Seq<char>>, model: Seq<char>) -> bool {
    host == Some("api.x.ai"@) || super::openai_chat::is_grok(model)
}

/// The effort in the terms of the service: OpenAI knows `minimal`, `low`, `medium` and
/// `high`, xAI `low`, `medium`, `high` and `xhigh`. Without thinking it is the least one.
pub open spec fn effort_of(xai: bool, thinking: bool, saved: Seq<char>) -> Seq<char> {
    let effort = text::lower(text::trim(saved));
    let least = if xai {
        "low"@
    } else {
        "minimal"@
    };
    if !thinking || effort == "minimal"@ {
        least
    } else if effort == "low"@ {
        "low"@
    } else if effort == "medium"@ {
        "medium"@
    } else if xai && (effort == "max"@ || effort == "xhigh"@) {
        "xhigh"@
    } else {
        "high"@
    }
}

/// The body of a request. A summary of the reasoning is asked for only where there is
/// thinking, and not of xAI.
pub open spec fn request_body(
    model: Seq<char>,
    prompt: Seq<char>,
    thinking: bool,
    saved: Seq<char>,
    xai: bool,
) -> JsonView {
    let effort = ("effort"@, JsonView::Text(effort_of(xai, thinking, saved)));
    JsonView::Object(
        seq![
            ("model"@, JsonView::Text(model)),
            ("stream"@, JsonView::Bool(true)),
            ("input"@, JsonView::Text(prompt)),
            ("max_output_tokens"@, crate::json::number_view(MAX_VISIBLE_OUTPUT_TOKENS)),
            (
                "reasoning"@,
                JsonView::Object(
                    if thinking && !xai {
                        seq![effort, ("summary"@, JsonView::Text("auto"@))]
                    } else {
                        seq![effort]
                    },
                ),
            ),
            ("store"@, JsonView::Bool(false)),
        ],
    )
}

/// The error of an object under a key.
pub open spec fn inner_error(value: JsonView, key: Seq<char>) -> Option<Seq<char>> {
    match value.get(key) {
        Some(inner) => crate::llm::shared::errors::api_error(inner),
        None => None,
    }
}

/// Why a response is incomplete, as far as it says.
pub open spec fn incomplete_reason(value: JsonView) -> Option<Seq<char>> {
    match value.get2("response"@, "incomplete_details"@) {
        Some(details) => details.text_at("reason"@),
        None => None,
    }
}

/// Whether an event of this type ends a response without success.
pub open spec fn ends_badly(kind: Seq<char>) -> bool {
    kind == "error"@ || kind == "response.failed"@ || kind == "response.incomplete"@
}

/// What is said of an event that ends a response without success.
pub open spec fn terminal_text(value: JsonView) -> Option<Seq<char>> {
    match value.text_at("type"@) {
        Some(kind) => if !ends_badly(kind) {
            None
        } else {
            let error = match crate::llm::shared::errors::api_error(value) {
                Some(message) => Some(message),
                None => inner_error(value, "response"@),
            };
            match error {
                Some(message) => Some("OpenAI Responses"@ + " 返回错误: "@ + message),
                None => Some(
                    "OpenAI Responses"@ + " 响应未完成: "@ + match incomplete_reason(value) {
                        Some(reason) => reason,
                        None => "未知原因"@,
                    },
                ),
            }
        },
        None => None,
    }
}

/// What an event brings.
pub open spec fn event_payload(value: JsonView) -> Result<PayloadView, Seq<char>> {
    match crate::llm::shared::errors::api_error(value) {
        Some(message) => Err(
            crate::llm::shared::errors::api_error_text("OpenAI Responses"@, message),
        ),
        None => match terminal_text(value) {
            Some(message) => Err(message),
            None => {
                let delta = crate::llm::shared::payload::filled_opt(value.text_at("delta"@));
                match value.text_at("type"@) {
                    Some(kind) => if kind == "response.output_text.delta"@ {
                        Ok(crate::llm::shared::payload::answer(delta))
                    } else if kind == "response.reasoning_summary_text.delta"@ || kind
                        == "response.reasoning_text.delta"@ {
                        Ok(crate::llm::shared::payload::thought(delta))
                    } else {
                        Ok(crate::llm::shared::payload::nothing())
                    },
                    None => Ok(crate::llm::shared::payload::nothing()),
                }
            },
        },
    }
}

/// The output texts among the parts of an item, one behind the other.
pub open spec fn output_text(parts: Seq<JsonView>) -> Seq<char>
    decreases parts.len(),
{
    if parts.len() == 0 {
        seq![]
    } else {
        output_text(parts.drop_last()) + match parts.last().text_at("text"@) {
            Some(text) => if parts.last().text_at("type"@) == Some("output_text"@) {
                text
            } else {
                seq![]
            },
            None => seq![],
        }
    }
}

/// The answer in an item of the output. An item of reasoning holds none; any other has to
/// have a list of parts.
pub open spec fn item_text(item: JsonView) -> Option<Seq<char>> {
    if item.text_at("type"@) == Some("reasoning"@) {
        Some(seq![])
    } else {
        match item.items_at("content"@) {
            Some(parts) => Some(output_text(parts)),
            None => None,
        }
    }
}

/// The answers in the items of the output, one behind the other.
pub open spec fn items_text(items: Seq<JsonView>) -> Option<Seq<char>>
    decreases items.len(),
{
    if items.len() == 0 {
        Some(seq![])
    } else {
        match (items_text(items.drop_last()), item_text(items.last())) {
            (Some(head), Some(tail)) => Some(head + tail),
            _ => None,
        }
    }
}

/// The answer in a whole response, where it is not empty.
pub open spec fn response_text(response: JsonView) -> Option<Seq<char>> {
    match response.items_at("output"@) {
        Some(items) => crate::llm::shared::payload::filled_opt(items_text(items)),
        None => None,
    }
}

/// The answer in the whole response under a key.
pub open spec fn inner_text(value: JsonView, key: Seq<char>) -> Option<Seq<char>> {
    match value.get(key) {
        Some(inner) => response_text(inner),
        None => None,
    }
}

/// What a whole reply brings.
pub open spec fn whole_reply(value: JsonView) -> Result<PayloadView, Seq<char>> {
    match terminal_text(value) {
        Some(message) => Err(message),
        None => {
            let text = match inner_text(value, "response"@) {
                Some(text) => Some(text),
                None => response_text(value),
            };
            match text {
                Some(text) => Ok(crate::llm::shared::payload::answer(Some(text))),
                None => Err("OpenAI Responses"@ + " JSON 响应不包含 output_text"@),
            }
        },
    }
}

/// What an event brings. A relay may leave the deltas out; where no answer has come in, the
/// event that completes the response brings it.
pub open spec fn event_reply(value: JsonView, unanswered: bool) -> Result<PayloadView, Seq<char>> {
    match event_payload(value) {
        Ok(payload) => if unanswered && value.text_at("type"@) == Some("response.completed"@)
            && inner_text(value, "response"@) is Some {
            Ok(crate::llm::shared::payload::answer(inner_text(value, "response"@)))
        } else {
            Ok(payload)
        },
        Err(message) => Err(message),
    }
}

/// Whether it is xAI that is asked.
pub fn is_xai(endpoint: &str, model: &str) -> (r: bool)
    ensures
        r == asks_xai(super::openai_chat::host_of(endpoint@), model@),
{
    if let Some(host) = host_in(endpoint) {
        if text::same(host.as_str(), "api.x.ai") {
            return true;
        }
    }
    names_grok(model)
}

/// The effort in the terms of the service. One that it does not know counts as `high`.
pub fn reasoning_effort(xai: bool, thinking: bool, saved_effort: &str) -> (r: &'static str)
    ensures
        r@ == effort_of(xai, thinking, saved_effort@),
{
    let lowered = text::ascii_lowercase(text::trimmed(saved_effort).as_str());
    let effort = lowered.as_str();
    if !thinking || text::same(effort, "minimal") {
        if xai {
            "low"
        } else {
            "minimal"
        }
    } else if text::same(effort, "low") {
        "low"
    } else if text::same(effort, "medium") {
        "medium"
    } else if xai && (text::same(effort, "max") || text::same(effort, "xhigh")) {
        "xhigh"
    } else {
        "high"
    }
}

/// The body of a request.
pub fn build_request_body(
    model: &str,
    prompt: &str,
    thinking: bool,
    saved_effort: &str,
    xai: bool,
) -> (r: Json)
    ensures
        r@ == request_body(model@, prompt@, thinking, saved_effort@, xai),
{
    let ghost effort = ("effort"@, JsonView::Text(effort_of(xai, thinking, saved_effort@)));
    let mut reasoning: Vec<(String, Json)> = Vec::new();
    put(&mut reasoning, "effort", Json::text(reasoning_effort(xai, thinking, saved_effort)));
    if thinking && !xai {
        put(&mut reasoning, "summary", Json::text("auto"));
        assert(crate::json::entry_views(reasoning@) =~= seq![
            effort,
            ("summary"@, JsonView::Text("auto"@)),
        ]);
    } else {
        assert(crate::json::entry_views(reasoning@) =~= seq![effort]);
    }
    let mut body: Vec<(String, Json)> = Vec::new();
    put(&mut body, "model", Json::text(model));
    put(&mut body, "stream", Json::Bool(true));
    put(&mut body, "input", Json::text(prompt));
    put(&mut body, "max_output_tokens", Json::number(MAX_VISIBLE_OUTPUT_TOKENS));
    put(&mut body, "reasoning", Json::object(reasoning));
    // The question is asked once; there is nothing to keep for later.
    put(&mut body, "store", Json::Bool(false));
    assert(crate::json::entry_views(body@) =~= request_body(
        model@,
        prompt@,
        thinking,
        saved_effort@,
        xai,
    )->Object_0);
    Json::object(body)
}

/// What is said of an event that ends a response without success. It has to be said: such
/// an event brings no answer either.
pub fn terminal_error(value: &Json) -> (r: Option<String>)
    ensures
        text::opt_text(r) == terminal_text(value@),
{
    let kind = match value.str_at("type") {
        Some(kind) => kind,
        None => {
            return None;
        },
    };
    if !text::same(kind, "error") && !text::same(kind, "response.failed") && !text::same(
        kind,
        "response.incomplete",
    ) {
        return None;
    }
    let error = match extract_api_error(value) {
        Some(message) => Some(message),
        None => match value.get("response") {
            Some(response) => extract_api_error(response),
            None => None,
        },
    };
    if let Some(message) = error {
        let mut r = text::concat(LABEL, " 返回错误: ");
        r.append(message.as_str());
        return Some(r);
    }
    let reason = match value.get("response") {
        Some(response) => response.str_at2("incomplete_details", "reason"),
        None => None,
    };
    let mut r = text::concat(LABEL, " 响应未完成: ");
    match reason {
        Some(reason) => r.append(reason),
        None => r.append("未知原因"),
    }
    Some(r)
}

/// What an event brings.
pub fn parse_event(value: &Json) -> (r: Result<ParsedPayload, String>)
    ensures
        crate::llm::shared::payload::reply_view(r) == event_payload(value@),
{
    if let Some(message) = extract_api_error(value) {
        return Err(format_api_error(LABEL, message.as_str()));
    }
    if let Some(message) = terminal_error(value) {
        return Err(message);
    }
    let delta = non_empty(value.str_at("delta"));
    match value.str_at("type") {
        Some(kind) => if text::same(kind, "response.output_text.delta") {
            Ok(ParsedPayload::answer(delta))
        } else if text::same(kind, "response.reasoning_summary_text.delta") || text::same(
            kind,
            "response.reasoning_text.delta",
        ) {
            Ok(ParsedPayload::thought(delta))
        } else {
            Ok(ParsedPayload { reasoning: None, content: None })
        },
        None => Ok(ParsedPayload { reasoning: None, content: None }),
    }
}

/// The output texts among the parts of an item, one behind the other.
fn text_from_parts(parts: &Vec<Json>) -> (r: String)
    ensures
        r@ == output_text(crate::json::json_views(parts@)),
{
    let ghost views = crate::json::json_views(parts@);
    let mut text = String::new();
    let mut i: usize = 0;
    assert(views.take(0) =~= seq![]);
    assert(text@ =~= seq![]);
    while i < parts.len()
        invariant
            i <= parts@.len(),
            views == crate::json::json_views(parts@),
            text@ == output_text(views.take(i as int)),
        decreases parts@.len() - i,
    {
        assert(views.take(i + 1).drop_last() =~= views.take(i as int));
        assert(views.take(i + 1).last() == parts@[i as int]@);
        if parts[i].str_is("type", "output_text") {
            if let Some(value) = parts[i].str_at("text") {
                text.append(value);
            }
        }
        assert(text@ =~= output_text(views.take(i + 1)));
        i += 1;
    }
    assert(views.take(i as int) =~= views);
    text
}

/// An item without an answer among the first ones spoils all.
proof fn lemma_items_spoilt(items: Seq<JsonView>, n: int)
    requires
        0 <= n <= items.len(),
        items_text(items.take(n)) is None,
    ensures
        items_text(items) is None,
    decreases items.len() - n,
{
    if n == items.len() {
        assert(items.take(n) =~= items);
    } else {
        assert(items.take(n + 1).drop_last() =~= items.take(n));
        lemma_items_spoilt(items, n + 1);
    }
}

/// The answer in a whole response, where it is not empty.
pub fn text_from_response(response: &Json) -> (r: Option<String>)
    ensures
        text::opt_text(r) == response_text(response@),
{
    let items = match response.array_at("output") {
        Some(items) => items,
        None => {
            return None;
        },
    };
    let ghost views = crate::json::json_views(items@);
    let mut text = String::new();
    let mut i: usize = 0;
    assert(views.take(0) =~= seq![]);
    assert(text@ =~= seq![]);
    while i < items.len()
        invariant
            i <= items@.len(),
            views == crate::json::json_views(items@),
            response@.items_at("output"@) == Some(views),
            items_text(views.take(i as int)) == Some(text@),
        decreases items@.len() - i,
    {
        assert(views.take(i + 1).drop_last() =~= views.take(i as int));
        assert(views.take(i + 1).last() == items@[i as int]@);
        let ghost before = text@;
        if !items[i].str_is("type", "reasoning") {
            match items[i].array_at("content") {
                Some(parts) => {
                    text.append(text_from_parts(parts).as_str());
                },
                None => {
                    proof {
                        lemma_items_spoilt(views, i + 1);
                    }
                    return None;
                },
            }
        } else {
            assert(before + Seq::<char>::empty() =~= before);
        }
        i += 1;
    }
    assert(views.take(i as int) =~= views);
    if_filled(text)
}

/// What a whole reply brings.
pub(crate) fn read_whole(value: &Json) -> (r: Result<ParsedPayload, String>)
    ensures
        crate::llm::shared::payload::reply_view(r) == whole_reply(value@),
{
    if let Some(message) = terminal_error(value) {
        return Err(message);
    }
    let inner = match value.get("response") {
        Some(response) => text_from_response(response),
        None => None,
    };
    let text = match inner {
        Some(text) => Some(text),
        None => text_from_response(value),
    };
    match text {
        Some(text) => Ok(ParsedPayload::answer(Some(text))),
        None => Err(text::concat(LABEL, " JSON 响应不包含 output_text")),
    }
}

/// What an event brings, and the event that completes the response where no answer has
/// come in.
pub(crate) fn read_event(value: &Json, unanswered: bool) -> (r: Result<ParsedPayload, String>)
    ensures
        crate::llm::shared::payload::reply_view(r) == event_reply(value@, unanswered),
{
    let payload = match parse_event(value) {
        Ok(payload) => payload,
        Err(message) => {
            return Err(message);
        },
    };
    if unanswered && value.str_is("type", "response.completed") {
        if let Some(response) = value.get("response") {
            if let Some(text) = text_from_response(response) {
                return Ok(ParsedPayload::answer(Some(text)));
            }
        }
    }
    Ok(payload)
}

impl OpenAiResponsesClient {
    /// Whether this client is the one that a configuration calls for.
    pub open spec fn made_from(self, config: ConfigView) -> bool {
        &&& self.endpoint@ == crate::llm::protocol::endpoint_of(
                Protocol::OpenAiResponses,
                config.base_url,
                config.model,
            )
        &&& self.model@ == config.model
        &&& self.api_key@ == config.api_key
        &&& self.enable_thinking == config.enable_thinking
        &&& self.reasoning_effort@ == crate::llm::request::effort_or_high(config.reasoning_effort)
    }

    pub fn new(config: &LlmConfig) -> (r: Self)
        ensures
            r.made_from(config@),
    {
        OpenAiResponsesClient {
            endpoint: endpoint(
                Protocol::OpenAiResponses,
                config.base_url.as_str(),
                config.model.as_str(),
            ),
            model: config.model.clone(),
            api_key: config.api_key.clone(),
            enable_thinking: config.enable_thinking,
            reasoning_effort: effort_or_default(config.reasoning_effort.as_str()),
        }
    }

    /// The request that asks the model.
    pub open spec fn request(self, quiz: QuizView) -> HttpRequestView {
        crate::llm::request::posted(
            self.endpoint@,
            Protocol::OpenAiResponses,
            self.api_key@,
            request_body(
                self.model@,
                crate::llm::prompt::quiz_prompt(
                    quiz.categories,
                    crate::llm::prompt::chat_prompt(quiz.question, quiz.options),
                    self.enable_thinking,
                ),
                self.enable_thinking,
                self.reasoning_effort@,
                asks_xai(super::openai_chat::host_of(self.endpoint@), self.model@),
            ),
        )
    }

    /// The request that asks the model, and the exchange that follows it.
    pub fn ask(&self, request: &QuizRequest) -> (r: (HttpRequest, Exchange))
        ensures
            r.0@ == self.request(request@),
            r.1@ == crate::llm::exchange::opened(Adapter::OpenAiResponses, self.api_key@),
            r.1@.wf(),
    {
        let prompt = build_quiz_prompt(
            request.categories,
            build_chat_prompt(request.question, request.options).as_str(),
            self.enable_thinking,
        );
        let body = build_request_body(
            self.model.as_str(),
            prompt.as_str(),
            self.enable_thinking,
            self.reasoning_effort.as_str(),
            is_xai(self.endpoint.as_str(), self.model.as_str()),
        );
        (
            post(self.endpoint.as_str(), Protocol::OpenAiResponses, self.api_key.as_str(), body),
            Exchange::open(Adapter::OpenAiResponses, self.api_key.as_str()),
        )
    }
}

} // verus!
