//! Gemini generateContent.
use crate::config::{ConfigView, LlmConfig};
use crate::json::{put, Json, JsonView};
use crate::llm::exchange::{Adapter, Exchange};
use crate::llm::prompt::{build_chat_prompt, build_split_prompt};
use crate::llm::protocol::{endpoint, Protocol};
use crate::llm::request::{
    effort_or_default, post, HttpRequest, HttpRequestView, QuizRequest, QuizView,
};
use crate::llm::shared::errors::{extract_api_error, format_api_error};
use crate::llm::shared::payload::{if_filled, ParsedPayload, PayloadView};
use crate::text;
use vstd::prelude::*;
use vstd::string::*;

verus! {

broadcast use {vstd::seq_lib::group_seq_properties, vstd::string::group_string_axioms};

/// How the adapter is called in messages.
pub const LABEL: &'static str = "Gemini";

pub const MAX_JSON_RESPONSE_SIZE: usize = 4 * 1024 * 1024;

pub const MAX_OUTPUT_TOKENS: u32 = 128;

/// A client for Gemini. The model stands in the endpoint.
#[derive(Debug, PartialEq, Eq)]
pub struct GeminiClient {
    pub endpoint: String,
    pub api_key: String,
    pub enable_thinking: bool,
    pub reasoning_effort: String,
}

/// The level in Gemini's terms. There is none for no thinking at all; `low` is the least
/// that all models have.
pub open spec fn level_of(thinking: bool, saved: Seq<char>) -> Seq<char> {
    let effort = text::lower(text::trim(saved));
    if !thinking || effort == "low"@ {
        "low"@
    } else if effort == "minimal"@ {
        "minimal"@
    } else if effort == "medium"@ {
        "medium"@
    } else {
        "high"@
    }
}

/// A list of one part that holds a text.
pub open spec fn text_parts(text: Seq<char>) -> JsonView {
    JsonView::Array(seq![JsonView::Object(seq![("text"@, JsonView::Text(text))])])
}

/// The body of a request.
pub open spec fn request_body(
    system: Seq<char>,
    question: Seq<char>,
    thinking: bool,
    saved: Seq<char>,
) -> JsonView {
    JsonView::Object(
        seq![
            ("systemInstruction"@, JsonView::Object(seq![("parts"@, text_parts(system))])),
            (
                "contents"@,
                JsonView::Array(
                    seq![
                        JsonView::Object(
                            seq![
                                ("role"@, JsonView::Text("user"@)),
                                ("parts"@, text_parts(question)),
                            ],
                        ),
                    ],
                ),
            ),
            (
                "generationConfig"@,
                JsonView::Object(
                    seq![
                        (
                            "maxOutputTokens"@,
                            crate::json::number_view(MAX_OUTPUT_TOKENS as u64),
                        ),
                        (
                            "thinkingConfig"@,
                            JsonView::Object(
                                seq![
                                    (
                                        "thinkingLevel"@,
                                        JsonView::Text(level_of(thinking, saved)),
                                    ),
                                    ("includeThoughts"@, JsonView::Bool(thinking)),
                                ],
                            ),
                        ),
                    ],
                ),
            ),
        ],
    )
}

/// Whether a candidate that finished for this reason was blocked.
pub open spec fn blocks(reason: Seq<char>) -> bool {
    ||| reason == "SAFETY"@
    ||| reason == "PROHIBITED_CONTENT"@
    ||| reason == "BLOCKLIST"@
    ||| reason == "SPII"@
    ||| reason == "IMAGE_SAFETY"@
}

/// Whether a part is marked as a thought.
pub open spec fn is_thought(part: JsonView) -> bool {
    match part.get("thought"@) {
        Some(mark) => mark.flag() == Some(true),
        None => false,
    }
}

/// The texts of the parts that are thoughts, or of those that are not, one behind the other.
pub open spec fn parts_text(parts: Seq<JsonView>, thoughts: bool) -> Seq<char>
    decreases parts.len(),
{
    if parts.len() == 0 {
        seq![]
    } else {
        parts_text(parts.drop_last(), thoughts) + match parts.last().text_at("text"@) {
            Some(text) => if is_thought(parts.last()) == thoughts {
                text
            } else {
                seq![]
            },
            None => seq![],
        }
    }
}

/// What is said of a request that was refused.
pub open spec fn refused_text(reason: Seq<char>) -> Seq<char> {
    "Gemini"@ + " 拒绝了该请求: "@ + reason
}

/// The parts of a candidate's content.
pub open spec fn parts_of(candidate: JsonView) -> Seq<JsonView> {
    match candidate.get2("content"@, "parts"@) {
        Some(parts) => match parts.items() {
            Some(parts) => parts,
            None => seq![],
        },
        None => seq![],
    }
}

/// What a candidate brings.
pub open spec fn candidate_payload(candidate: JsonView) -> Result<PayloadView, Seq<char>> {
    let reason = candidate.text_at("finishReason"@);
    if reason is Some && blocks(reason->0) {
        Err(refused_text(reason->0))
    } else {
        Ok(
            PayloadView {
                reasoning: crate::llm::shared::payload::filled(
                    parts_text(parts_of(candidate), true),
                ),
                content: crate::llm::shared::payload::filled(
                    parts_text(parts_of(candidate), false),
                ),
            },
        )
    }
}

/// What a reply, whole or one of a stream, brings.
pub open spec fn chunk_payload(value: JsonView) -> Result<PayloadView, Seq<char>> {
    match crate::llm::shared::errors::api_error(value) {
        Some(message) => Err(crate::llm::shared::errors::api_error_text("Gemini"@, message)),
        None => match value.text_at2("promptFeedback"@, "blockReason"@) {
            Some(blocked) => Err(refused_text(blocked)),
            None => match value.items_at("candidates"@) {
                Some(candidates) => if candidates.len() == 0 {
                    Ok(crate::llm::shared::payload::nothing())
                } else {
                    candidate_payload(candidates[0])
                },
                None => Ok(crate::llm::shared::payload::nothing()),
            },
        },
    }
}

/// The level in Gemini's terms. An effort that it does not know counts as `high`.
pub fn thinking_level(thinking: bool, saved_effort: &str) -> (r: &'static str)
    ensures
        r@ == level_of(thinking, saved_effort@),
{
    let lowered = text::ascii_lowercase(text::trimmed(saved_effort).as_str());
    let effort = lowered.as_str();
    if !thinking || text::same(effort, "low") {
        "low"
    } else if text::same(effort, "minimal") {
        "minimal"
    } else if text::same(effort, "medium") {
        "medium"
    } else {
        "high"
    }
}

/// A list of one part that holds a text.
fn build_text_parts(text: &str) -> (r: Json)
    ensures
        r@ == text_parts(text@),
{
    Json::list_of(Json::object_of("text", Json::text(text)))
}

/// The body of a request.
pub fn build_request_body(system: &str, question: &str, thinking: bool, saved_effort: &str) -> (r:
    Json)
    ensures
        r@ == request_body(system@, question@, thinking, saved_effort@),
{
    let ghost wanted = request_body(system@, question@, thinking, saved_effort@)->Object_0;
    let mut content: Vec<(String, Json)> = Vec::new();
    put(&mut content, "role", Json::text("user"));
    put(&mut content, "parts", build_text_parts(question));
    assert(crate::json::entry_views(content@) =~= wanted[1].1->Array_0[0]->Object_0);
    let mut thinking_config: Vec<(String, Json)> = Vec::new();
    put(
        &mut thinking_config,
        "thinkingLevel",
        Json::text(thinking_level(thinking, saved_effort)),
    );
    put(&mut thinking_config, "includeThoughts", Json::Bool(thinking));
    assert(crate::json::entry_views(thinking_config@)
        =~= wanted[2].1->Object_0[1].1->Object_0);
    let mut generation_config: Vec<(String, Json)> = Vec::new();
    put(&mut generation_config, "maxOutputTokens", Json::number(MAX_OUTPUT_TOKENS as u64));
    put(&mut generation_config, "thinkingConfig", Json::object(thinking_config));
    assert(crate::json::entry_views(generation_config@) =~= wanted[2].1->Object_0);
    let mut body: Vec<(String, Json)> = Vec::new();
    put(&mut body, "systemInstruction", Json::object_of("parts", build_text_parts(system)));
    put(&mut body, "contents", Json::list_of(Json::object(content)));
    put(&mut body, "generationConfig", Json::object(generation_config));
    assert(crate::json::entry_views(body@) =~= wanted);
    Json::object(body)
}

/// What is said of a request that was refused.
fn describe_refusal(reason: &str) -> (r: String)
    ensures
        r@ == refused_text(reason@),
{
    let mut r = text::concat(LABEL, " 拒绝了该请求: ");
    r.append(reason);
    r
}

/// What the parts of a candidate bring. Thoughts and answer stand in one list; a mark tells
/// them apart.
fn parse_parts(parts: &Vec<Json>) -> (r: ParsedPayload)
    ensures
        r@ == (PayloadView {
            reasoning: crate::llm::shared::payload::filled(
                parts_text(crate::json::json_views(parts@), true),
            ),
            content: crate::llm::shared::payload::filled(
                parts_text(crate::json::json_views(parts@), false),
            ),
        }),
{
    let ghost views = crate::json::json_views(parts@);
    let mut reasoning = String::new();
    let mut content = String::new();
    let mut i: usize = 0;
    assert(views.take(0) =~= seq![]);
    assert(reasoning@ =~= seq![]);
    assert(content@ =~= seq![]);
    while i < parts.len()
        invariant
            i <= parts@.len(),
            views == crate::json::json_views(parts@),
            reasoning@ == parts_text(views.take(i as int), true),
            content@ == parts_text(views.take(i as int), false),
        decreases parts@.len() - i,
    {
        assert(views.take(i + 1).drop_last() =~= views.take(i as int));
        assert(views.take(i + 1).last() == parts@[i as int]@);
        if let Some(text) = parts[i].str_at("text") {
            let thought = match parts[i].get("thought") {
                Some(mark) => match mark.as_bool() {
                    Some(flag) => flag,
                    None => false,
                },
                None => false,
            };
            if thought {
                reasoning.append(text);
            } else {
                content.append(text);
            }
        }
        assert(reasoning@ =~= parts_text(views.take(i + 1), true));
        assert(content@ =~= parts_text(views.take(i + 1), false));
        i += 1;
    }
    assert(views.take(i as int) =~= views);
    ParsedPayload { reasoning: if_filled(reasoning), content: if_filled(content) }
}

/// What a candidate brings.
fn parse_candidate(candidate: &Json) -> (r: Result<ParsedPayload, String>)
    ensures
        crate::llm::shared::payload::reply_view(r) == candidate_payload(candidate@),
{
    if let Some(reason) = candidate.str_at("finishReason") {
        if text::same(reason, "SAFETY") || text::same(reason, "PROHIBITED_CONTENT") || text::same(
            reason,
            "BLOCKLIST",
        ) || text::same(reason, "SPII") || text::same(reason, "IMAGE_SAFETY") {
            return Err(describe_refusal(reason));
        }
    }
    let parts = match candidate.get("content") {
        Some(content) => content.array_at("parts"),
        None => None,
    };
    match parts {
        Some(parts) => Ok(parse_parts(parts)),
        None => Ok(ParsedPayload { reasoning: None, content: None }),
    }
}

/// What a reply brings. Each event of a stream is a whole reply.
pub fn parse_chunk(value: &Json) -> (r: Result<ParsedPayload, String>)
    ensures
        crate::llm::shared::payload::reply_view(r) == chunk_payload(value@),
{
    if let Some(message) = extract_api_error(value) {
        return Err(format_api_error(LABEL, message.as_str()));
    }
    if let Some(blocked) = value.str_at2("promptFeedback", "blockReason") {
        return Err(describe_refusal(blocked));
    }
    match value.array_at("candidates") {
        Some(candidates) => if candidates.len() == 0 {
            Ok(ParsedPayload { reasoning: None, content: None })
        } else {
            assert(crate::json::json_views(candidates@)[0] == candidates@[0]@);
            parse_candidate(&candidates[0])
        },
        None => Ok(ParsedPayload { reasoning: None, content: None }),
    }
}

impl GeminiClient {
    /// Whether this client is the one that a configuration calls for.
    pub open spec fn made_from(self, config: ConfigView) -> bool {
        &&& self.endpoint@ == crate::llm::protocol::endpoint_of(
                Protocol::Gemini,
                config.base_url,
                config.model,
            )
        &&& self.api_key@ == config.api_key
        &&& self.enable_thinking == config.enable_thinking
        &&& self.reasoning_effort@ == crate::llm::request::effort_or_high(config.reasoning_effort)
    }

    pub fn new(config: &LlmConfig) -> (r: Self)
        ensures
            r.made_from(config@),
    {
        GeminiClient {
            endpoint: endpoint(
                Protocol::Gemini,
                config.base_url.as_str(),
                config.model.as_str(),
            ),
            api_key: config.api_key.clone(),
            enable_thinking: config.enable_thinking,
            reasoning_effort: effort_or_default(config.reasoning_effort.as_str()),
        }
    }

    /// The request that asks the model.
    pub open spec fn request(self, quiz: QuizView) -> HttpRequestView {
        crate::llm::request::posted(
            self.endpoint@,
            Protocol::Gemini,
            self.api_key@,
            request_body(
                crate::llm::prompt::system_prompt(quiz.categories),
                crate::llm::prompt::question_text(
                    crate::llm::prompt::chat_prompt(quiz.question, quiz.options),
                    self.enable_thinking,
                ),
                self.enable_thinking,
                self.reasoning_effort@,
            ),
        )
    }

    /// The request that asks the model, and the exchange that follows it.
    pub fn ask(&self, request: &QuizRequest) -> (r: (HttpRequest, Exchange))
        ensures
            r.0@ == self.request(request@),
            r.1@ == crate::llm::exchange::opened(Adapter::Gemini, self.api_key@),
            r.1@.wf(),
    {
        let question = build_chat_prompt(request.question, request.options);
        let (system, question) = build_split_prompt(
            request.categories,
            question.as_str(),
            self.enable_thinking,
        );
        let body = build_request_body(
            system.as_str(),
            question.as_str(),
            self.enable_thinking,
            self.reasoning_effort.as_str(),
        );
        (
            post(self.endpoint.as_str(), Protocol::Gemini, self.api_key.as_str(), body),
            Exchange::open(Adapter::Gemini, self.api_key.as_str()),
        )
    }
}

} // verus!
