//! Anthropic Messages.
use crate::config::{ConfigView, LlmConfig};
use crate::json::{put, Json, JsonView};
use crate::llm::exchange::{Adapter, Exchange};
use crate::llm::prompt::{build_chat_prompt, build_split_prompt};
use crate::llm::protocol::{endpoint, Protocol};
use crate::llm::request::{
    effort_or_default, post, HttpRequest, HttpRequestView, QuizRequest, QuizView,
};
use crate::llm::shared::errors::{extract_api_error, format_api_error};
use crate::llm::shared::payload::{if_filled, non_empty, ParsedPayload, PayloadView};
use crate::text;
use vstd::prelude::*;
use vstd::string::*;

verus! {

broadcast use {vstd::seq_lib::group_seq_properties, vstd::string::group_string_axioms};

/// How the adapter is called in messages.
pub const LABEL: &'static str = "Anthropic";

pub const MAX_JSON_RESPONSE_SIZE: usize = 4 * 1024 * 1024;

/// A client for Anthropic.
#[derive(Debug, PartialEq, Eq)]
pub struct ClaudeClient {
    pub endpoint: String,
    pub model: String,
    pub api_key: String,
    pub enable_thinking: bool,
    pub reasoning_effort: String,
}

/// The effort in Anthropic's terms. Its models think as far as they see fit and refuse to be
/// told not to; `low` is the least.
pub open spec fn effort_of(thinking: bool, saved: Seq<char>) -> Seq<char> {
    let effort = text::lower(text::trim(saved));
    if !thinking || effort == "low"@ {
        "low"@
    } else if effort == "medium"@ {
        "medium"@
    } else if effort == "max"@ {
        "max"@
    } else if effort == "xhigh"@ {
        "xhigh"@
    } else {
        "high"@
    }
}

/// The bound on thinking and answer together. The more effort, the more thinking.
pub open spec fn token_bound(thinking: bool, saved: Seq<char>) -> u64 {
    let effort = text::lower(text::trim(saved));
    if !thinking {
        4096
    } else if effort == "low"@ {
        8192
    } else if effort == "xhigh"@ || effort == "max"@ {
        65536
    } else {
        16384
    }
}

/// The body of a request.
pub open spec fn request_body(
    model: Seq<char>,
    system: Seq<char>,
    question: Seq<char>,
    thinking: bool,
    saved: Seq<char>,
) -> JsonView {
    JsonView::Object(
        seq![
            ("model"@, JsonView::Text(model)),
            ("max_tokens"@, crate::json::number_view(token_bound(thinking, saved))),
            ("stream"@, JsonView::Bool(true)),
            ("system"@, JsonView::Text(system)),
            (
                "messages"@,
                JsonView::Array(
                    seq![
                        JsonView::Object(
                            seq![
                                ("role"@, JsonView::Text("user"@)),
                                ("content"@, JsonView::Text(question)),
                            ],
                        ),
                    ],
                ),
            ),
            (
                "output_config"@,
                JsonView::Object(seq![("effort"@, JsonView::Text(effort_of(thinking, saved)))]),
            ),
        ],
    )
}

/// The text under a key of the object under a key, where it is not empty.
pub open spec fn filled_at2(value: JsonView, outer: Seq<char>, inner: Seq<char>) -> Option<
    Seq<char>,
> {
    crate::llm::shared::payload::filled_opt(value.text_at2(outer, inner))
}

/// What an event brings.
pub open spec fn event_payload(value: JsonView) -> Result<PayloadView, Seq<char>> {
    let kind = value.text_at("type"@);
    let delta = value.text_at2("delta"@, "type"@);
    match crate::llm::shared::errors::api_error(value) {
        Some(message) => Err(crate::llm::shared::errors::api_error_text("Anthropic"@, message)),
        None => if kind == Some("content_block_delta"@) {
            if delta == Some("text_delta"@) {
                Ok(crate::llm::shared::payload::answer(filled_at2(value, "delta"@, "text"@)))
            } else if delta == Some("thinking_delta"@) {
                Ok(crate::llm::shared::payload::thought(filled_at2(value, "delta"@, "thinking"@)))
            } else {
                Ok(crate::llm::shared::payload::nothing())
            }
        } else if kind == Some("content_block_start"@) {
            Ok(
                PayloadView {
                    reasoning: filled_at2(value, "content_block"@, "thinking"@),
                    content: filled_at2(value, "content_block"@, "text"@),
                },
            )
        } else {
            Ok(crate::llm::shared::payload::nothing())
        },
    }
}

/// The texts among the blocks of a message, one behind the other.
pub open spec fn blocks_text(blocks: Seq<JsonView>) -> Seq<char>
    decreases blocks.len(),
{
    if blocks.len() == 0 {
        seq![]
    } else {
        blocks_text(blocks.drop_last()) + match blocks.last().text_at("text"@) {
            Some(text) => if blocks.last().text_at("type"@) == Some("text"@) {
                text
            } else {
                seq![]
            },
            None => seq![],
        }
    }
}

/// The answer in a whole message, where it is not empty.
pub open spec fn message_text(value: JsonView) -> Option<Seq<char>> {
    match value.items_at("content"@) {
        Some(blocks) => crate::llm::shared::payload::filled(blocks_text(blocks)),
        None => None,
    }
}

/// What a whole reply brings.
pub open spec fn whole_reply(value: JsonView) -> Result<PayloadView, Seq<char>> {
    match crate::llm::shared::errors::api_error(value) {
        Some(message) => Err(crate::llm::shared::errors::api_error_text("Anthropic"@, message)),
        None => match message_text(value) {
            Some(text) => Ok(crate::llm::shared::payload::answer(Some(text))),
            None => Err("Anthropic"@ + " JSON 响应不包含文本内容"@),
        },
    }
}

/// The effort in Anthropic's terms. One that it does not know counts as `high`.
pub fn output_effort(thinking: bool, saved_effort: &str) -> (r: &'static str)
    ensures
        r@ == effort_of(thinking, saved_effort@),
{
    let lowered = text::ascii_lowercase(text::trimmed(saved_effort).as_str());
    let effort = lowered.as_str();
    if !thinking || text::same(effort, "low") {
        "low"
    } else if text::same(effort, "medium") {
        "medium"
    } else if text::same(effort, "max") {
        "max"
    } else if text::same(effort, "xhigh") {
        "xhigh"
    } else {
        "high"
    }
}

/// The bound on thinking and answer together.
pub fn max_tokens(thinking: bool, saved_effort: &str) -> (r: u64)
    ensures
        r == token_bound(thinking, saved_effort@),
{
    if !thinking {
        return 4096;
    }
    let lowered = text::ascii_lowercase(text::trimmed(saved_effort).as_str());
    let effort = lowered.as_str();
    if text::same(effort, "low") {
        8192
    } else if text::same(effort, "xhigh") || text::same(effort, "max") {
        65536
    } else {
        16384
    }
}

/// The body of a request.
pub fn build_request_body(
    model: &str,
    system: &str,
    question: &str,
    thinking: bool,
    saved_effort: &str,
) -> (r: Json)
    ensures
        r@ == request_body(model@, system@, question@, thinking, saved_effort@),
{
    let mut message: Vec<(String, Json)> = Vec::new();
    put(&mut message, "role", Json::text("user"));
    put(&mut message, "content", Json::text(question));
    assert(crate::json::entry_views(message@) =~= seq![
        ("role"@, JsonView::Text("user"@)),
        ("content"@, JsonView::Text(question@)),
    ]);
    let mut body: Vec<(String, Json)> = Vec::new();
    put(&mut body, "model", Json::text(model));
    put(&mut body, "max_tokens", Json::number(max_tokens(thinking, saved_effort)));
    put(&mut body, "stream", Json::Bool(true));
    put(&mut body, "system", Json::text(system));
    put(&mut body, "messages", Json::list_of(Json::object(message)));
    put(
        &mut body,
        "output_config",
        Json::object_of("effort", Json::text(output_effort(thinking, saved_effort))),
    );
    assert(crate::json::entry_views(body@) =~= request_body(
        model@,
        system@,
        question@,
        thinking,
        saved_effort@,
    )->Object_0);
    Json::object(body)
}

/// What an event brings. The event that starts a block may hold a whole text.
pub fn parse_event(value: &Json) -> (r: Result<ParsedPayload, String>)
    ensures
        crate::llm::shared::payload::reply_view(r) == event_payload(value@),
{
    if let Some(message) = extract_api_error(value) {
        return Err(format_api_error(LABEL, message.as_str()));
    }
    if value.str_is("type", "content_block_delta") {
        let kind = match value.str_at2("delta", "type") {
            Some(kind) => kind,
            None => {
                return Ok(ParsedPayload { reasoning: None, content: None });
            },
        };
        if text::same(kind, "text_delta") {
            return Ok(ParsedPayload::answer(non_empty(value.str_at2("delta", "text"))));
        }
        if text::same(kind, "thinking_delta") {
            return Ok(ParsedPayload::thought(non_empty(value.str_at2("delta", "thinking"))));
        }
    } else if value.str_is("type", "content_block_start") {
        return Ok(
            ParsedPayload {
                reasoning: non_empty(value.str_at2("content_block", "thinking")),
                content: non_empty(value.str_at2("content_block", "text")),
            },
        );
    }
    Ok(ParsedPayload { reasoning: None, content: None })
}

/// The answer in a whole message, where it is not empty.
pub fn text_from_message(value: &Json) -> (r: Option<String>)
    ensures
        text::opt_text(r) == message_text(value@),
{
    let blocks = match value.array_at("content") {
        Some(blocks) => blocks,
        None => {
            return None;
        },
    };
    let ghost views = crate::json::json_views(blocks@);
    let mut text = String::new();
    let mut i: usize = 0;
    assert(views.take(0) =~= seq![]);
    assert(text@ =~= seq![]);
    while i < blocks.len()
        invariant
            i <= blocks@.len(),
            views == crate::json::json_views(blocks@),
            text@ == blocks_text(views.take(i as int)),
        decreases blocks@.len() - i,
    {
        assert(views.take(i + 1).drop_last() =~= views.take(i as int));
        assert(views.take(i + 1).last() == blocks@[i as int]@);
        if blocks[i].str_is("type", "text") {
            if let Some(value) = blocks[i].str_at("text") {
                text.append(value);
            }
        }
        assert(text@ =~= blocks_text(views.take(i + 1)));
        i += 1;
    }
    assert(views.take(i as int) =~= views);
    if_filled(text)
}

/// What a whole reply brings.
pub(crate) fn read_whole(value: &Json) -> (r: Result<ParsedPayload, String>)
    ensures
        crate::llm::shared::payload::reply_view(r) == whole_reply(value@),
{
    if let Some(message) = extract_api_error(value) {
        return Err(format_api_error(LABEL, message.as_str()));
    }
    match text_from_message(value) {
        Some(text) => Ok(ParsedPayload::answer(Some(text))),
        None => Err(text::concat(LABEL, " JSON 响应不包含文本内容")),
    }
}

impl ClaudeClient {
    /// Whether this client is the one that a configuration calls for.
    pub open spec fn made_from(self, config: ConfigView) -> bool {
        &&& self.endpoint@ == crate::llm::protocol::endpoint_of(
                Protocol::Claude,
                config.base_url,
                config.model,
            )
        &&& self.model@ == config.model
        &&& self.api_key@ == config.api_key
        &&& self.enable_thinking == config.enable_thinking
        &&& self.reasoning_effort@ == crate::llm::request::effort_or_high(config.reasoning_effort)
    }

    pub fn new(config: &LlmConfig) -> (r: Self)
        ensures
            r.made_from(config@),
    {
        ClaudeClient {
            endpoint: endpoint(
                Protocol::Claude,
                config.base_url.as_str(),
                config.model.as_str(),
            ),
            model: config.model.clone(),
            api_key: config.api_key.clone(),
            enable_thinking: config.enable_thinking,
            reasoning_effort: effort_or_default(config.reasoning_effort.as_str()),
        }
    }

    /// The request that asks the model.
    pub open spec fn request(self, quiz: QuizView) -> HttpRequestView {
        crate::llm::request::posted(
            self.endpoint@,
            Protocol::Claude,
            self.api_key@,
            request_body(
                self.model@,
                crate::llm::prompt::system_prompt(quiz.categories),
                crate::llm::prompt::question_text(
                    crate::llm::prompt::chat_prompt(quiz.question, quiz.options),
                    self.enable_thinking,
                ),
                self.enable_thinking,
                self.reasoning_effort@,
            ),
        )
    }

    /// The request that asks the model, and the exchange that follows it.
    pub fn ask(&self, request: &QuizRequest) -> (r: (HttpRequest, Exchange))
        ensures
            r.0@ == self.request(request@),
            r.1@ == crate::llm::exchange::opened(Adapter::Claude, self.api_key@),
            r.1@.wf(),
    {
        let question = build_chat_prompt(request.question, request.options);
        let (system, question) = build_split_prompt(
            request.categories,
            question.as_str(),
            self.enable_thinking,
        );
        let body = build_request_body(
            self.model.as_str(),
            system.as_str(),
            question.as_str(),
            self.enable_thinking,
            self.reasoning_effort.as_str(),
        );
        (
            post(self.endpoint.as_str(), Protocol::Claude, self.api_key.as_str(), body),
            Exchange::open(Adapter::Claude, self.api_key.as_str()),
        )
    }
}

} // verus!
