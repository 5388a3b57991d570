//! Gemini Interactions.
use super::gemini::thinking_level as gemini_level;
use crate::config::{ConfigView, LlmConfig};
use crate::json::{put, Json, JsonView};
use crate::llm::exchange::{Adapter, Exchange};
use crate::llm::prompt::{build_chat_prompt, build_quiz_prompt};
use crate::llm::protocol::{endpoint, Protocol};
use crate::llm::request::{
    effort_or_default, post, HttpRequest, HttpRequestView, QuizRequest, QuizView,
};
use crate::llm::shared::errors::{extract_api_error, format_api_error};
use crate::llm::shared::payload::{if_filled, ParsedPayload, PayloadView};
use crate::text;
use vstd::prelude::*;
use vstd::string::*;

verus! {

broadcast use {vstd::seq_lib::group_seq_properties, vstd::string::group_string_axioms};

/// How the adapter is called in messages.
pub const LABEL: &'static str = "Gemini Interactions";

pub const MAX_JSON_RESPONSE_SIZE: usize = 4 * 1024 * 1024;

/// A client for Gemini Interactions.
#[derive(Debug, PartialEq, Eq)]
pub struct GeminiInteractionsClient {
    pub endpoint: String,
    pub model: String,
    pub api_key: String,
    pub enable_thinking: bool,
    pub reasoning_effort: String,
}

/// The body of a request. No stream is asked for.
pub open spec fn request_body(
    model: Seq<char>,
    input: Seq<char>,
    thinking: bool,
    saved: Seq<char>,
) -> JsonView {
    JsonView::Object(
        seq![
            ("model"@, JsonView::Text(model)),
            ("input"@, JsonView::Text(input)),
            (
                "generation_config"@,
                JsonView::Object(
                    seq![
                        (
                            "thinking_level"@,
                            JsonView::Text(super::gemini::level_of(thinking, saved)),
                        ),
                    ],
                ),
            ),
            ("store"@, JsonView::Bool(false)),
        ],
    )
}

/// Whether a step is marked as thinking.
pub open spec fn is_thought(step: JsonView) -> bool {
    match step.text_at("type"@) {
        Some(kind) => text::contains(kind, "thought"@) || text::contains(kind, "thinking"@),
        None => false,
    }
}

/// The text under a key, or nothing.
pub open spec fn text_or_nothing(value: JsonView, key: Seq<char>) -> Seq<char> {
    match value.text_at(key) {
        Some(text) => text,
        None => seq![],
    }
}

/// The texts of the steps that are marked as thinking, one behind the other.
pub open spec fn steps_text(steps: Seq<JsonView>) -> Seq<char>
    decreases steps.len(),
{
    if steps.len() == 0 {
        seq![]
    } else if is_thought(steps.last()) {
        steps_text(steps.drop_last()) + text_or_nothing(steps.last(), "thought"@)
            + text_or_nothing(steps.last(), "text"@)
    } else {
        steps_text(steps.drop_last())
    }
}

/// The thoughts among the steps of a reply, where there are any.
pub open spec fn thoughts_of(steps: Option<JsonView>) -> Option<Seq<char>> {
    match steps {
        Some(steps) => match steps.items() {
            Some(steps) => crate::llm::shared::payload::filled(steps_text(steps)),
            None => None,
        },
        None => None,
    }
}

/// What a reply brings.
pub open spec fn interaction_payload(value: JsonView) -> Result<PayloadView, Seq<char>> {
    match crate::llm::shared::errors::api_error(value) {
        Some(message) => Err(
            crate::llm::shared::errors::api_error_text("Gemini Interactions"@, message),
        ),
        None => Ok(
            PayloadView {
                reasoning: thoughts_of(value.get("steps"@)),
                content: match value.text_at("output_text"@) {
                    Some(text) => if text::trim(text).len() == 0 {
                        None
                    } else {
                        Some(text)
                    },
                    None => None,
                },
            },
        ),
    }
}

/// The level in Gemini's terms.
pub fn thinking_level(thinking: bool, saved_effort: &str) -> (r: &'static str)
    ensures
        r@ == super::gemini::level_of(thinking, saved_effort@),
{
    gemini_level(thinking, saved_effort)
}

/// The body of a request.
pub fn build_request_body(model: &str, input: &str, thinking: bool, saved_effort: &str) -> (r: Json)
    ensures
        r@ == request_body(model@, input@, thinking, saved_effort@),
{
    let mut body: Vec<(String, Json)> = Vec::new();
    put(&mut body, "model", Json::text(model));
    put(&mut body, "input", Json::text(input));
    put(
        &mut body,
        "generation_config",
        Json::object_of("thinking_level", Json::text(thinking_level(thinking, saved_effort))),
    );
    // What is asked once need not be kept by the service.
    put(&mut body, "store", Json::Bool(false));
    assert(crate::json::entry_views(body@) =~= request_body(
        model@,
        input@,
        thinking,
        saved_effort@,
    )->Object_0);
    Json::object(body)
}

/// The thoughts among the steps of a reply, where there are any. A step that is not marked
/// as thinking counts for nothing here; the answer does not come from the steps.
pub fn collect_thoughts(steps: Option<&Json>) -> (r: Option<String>)
    ensures
        text::opt_text(r) == thoughts_of(crate::json::opt_json(steps)),
{
    let steps = match steps {
        Some(steps) => steps,
        None => {
            return None;
        },
    };
    let items = match steps.as_array() {
        Some(items) => items,
        None => {
            return None;
        },
    };
    let ghost views = crate::json::json_views(items@);
    let mut text = String::new();
    let mut i: usize = 0;
    assert(views.take(0) =~= seq![]);
    assert(text@ =~= seq![]);
    while i < items.len()
        invariant
            i <= items@.len(),
            views == crate::json::json_views(items@),
            text@ == steps_text(views.take(i as int)),
        decreases items@.len() - i,
    {
        assert(views.take(i + 1).drop_last() =~= views.take(i as int));
        assert(views.take(i + 1).last() == items@[i as int]@);
        let thought = match items[i].str_at("type") {
            Some(kind) => text::has(kind, "thought") || text::has(kind, "thinking"),
            None => false,
        };
        if thought {
            if let Some(value) = items[i].str_at("thought") {
                text.append(value);
            }
            if let Some(value) = items[i].str_at("text") {
                text.append(value);
            }
        }
        assert(text@ =~= steps_text(views.take(i + 1)));
        i += 1;
    }
    assert(views.take(i as int) =~= views);
    if_filled(text)
}

/// What a reply brings.
pub fn parse_interaction(value: &Json) -> (r: Result<ParsedPayload, String>)
    ensures
        crate::llm::shared::payload::reply_view(r) == interaction_payload(value@),
{
    if let Some(message) = extract_api_error(value) {
        return Err(format_api_error(LABEL, message.as_str()));
    }
    let content = match value.str_at("output_text") {
        Some(text) => if text::blank(text) {
            None
        } else {
            Some(text.to_owned())
        },
        None => None,
    };
    Ok(ParsedPayload { reasoning: collect_thoughts(value.get("steps")), content })
}

impl GeminiInteractionsClient {
    /// Whether this client is the one that a configuration calls for.
    pub open spec fn made_from(self, config: ConfigView) -> bool {
        &&& self.endpoint@ == crate::llm::protocol::endpoint_of(
                Protocol::GeminiInteractions,
                config.base_url,
                config.model,
            )
        &&& self.model@ == config.model
        &&& self.api_key@ == config.api_key
        &&& self.enable_thinking == config.enable_thinking
        &&& self.reasoning_effort@ == crate::llm::request::effort_or_high(config.reasoning_effort)
    }

    pub fn new(config: &LlmConfig) -> (r: Self)
        ensures
            r.made_from(config@),
    {
        GeminiInteractionsClient {
            endpoint: endpoint(
                Protocol::GeminiInteractions,
                config.base_url.as_str(),
                config.model.as_str(),
            ),
            model: config.model.clone(),
            api_key: config.api_key.clone(),
            enable_thinking: config.enable_thinking,
            reasoning_effort: effort_or_default(config.reasoning_effort.as_str()),
        }
    }

    /// The request that asks the model.
    pub open spec fn request(self, quiz: QuizView) -> HttpRequestView {
        crate::llm::request::posted(
            self.endpoint@,
            Protocol::GeminiInteractions,
            self.api_key@,
            request_body(
                self.model@,
                crate::llm::prompt::quiz_prompt(
                    quiz.categories,
                    crate::llm::prompt::chat_prompt(quiz.question, quiz.options),
                    self.enable_thinking,
                ),
                self.enable_thinking,
                self.reasoning_effort@,
            ),
        )
    }

    /// The request that asks the model, and the exchange that follows it. The protocol has
    /// no field for the system prompt; it stands before the question.
    pub fn ask(&self, request: &QuizRequest) -> (r: (HttpRequest, Exchange))
        ensures
            r.0@ == self.request(request@),
            r.1@ == crate::llm::exchange::opened(Adapter::GeminiInteractions, self.api_key@),
            r.1@.wf(),
    {
        let input = build_quiz_prompt(
            request.categories,
            build_chat_prompt(request.question, request.options).as_str(),
            self.enable_thinking,
        );
        let body = build_request_body(
            self.model.as_str(),
            input.as_str(),
            self.enable_thinking,
            self.reasoning_effort.as_str(),
        );
        (
            post(self.endpoint.as_str(), Protocol::GeminiInteractions, self.api_key.as_str(), body),
            Exchange::open(Adapter::GeminiInteractions, self.api_key.as_str()),
        )
    }
}

} // verus!
