//! A client for Chat Completions whose configuration holds the endpoint itself.
use super::exchange::{Adapter, Exchange};
use super::prompt::{build_chat_prompt, build_quiz_prompt};
use super::protocol::Protocol;
use super::providers::openai_chat::{api_dialect, build_request_body, parse_choices};
use super::request::{post, HttpRequest, HttpRequestView, QuizView};
use super::shared::errors::format_api_error;
use super::shared::http::safe_preview;
use super::shared::payload::{ParsedPayload, PayloadView};
use super::shared::stream::status_text;
use crate::config::OpenAiConfig;
use crate::json::{Json, JsonView};
use crate::text;
use vstd::prelude::*;
use vstd::string::*;

verus! {

broadcast use {vstd::seq_lib::group_seq_properties, vstd::string::group_string_axioms};

/// The client.
#[derive(Debug, PartialEq, Eq)]
pub struct OpenAiClient {
    pub base_url: String,
    pub model: String,
    pub api_key: String,
    pub enable_thinking: bool,
    pub reasoning_effort: String,
}

/// What an `error` value says.
pub open spec fn error_message(error: JsonView) -> Seq<char> {
    match error.text_at("message"@) {
        Some(message) => message,
        None => match error.text() {
            Some(message) => message,
            None => "未知 API 错误"@,
        },
    }
}

/// What a reply brings, if it brings anything; an error where it has one, readable or not.
pub open spec fn payload_of(value: JsonView) -> Result<Option<PayloadView>, Seq<char>> {
    match value.get("error"@) {
        Some(error) => Err(
            super::shared::errors::api_error_text("LLM"@, error_message(error)),
        ),
        None => super::providers::openai_chat::choices_payload(value),
    }
}

/// What is said of a request that was refused.
pub open spec fn refusal_text(code: u16, body: Seq<char>, api_key: Seq<char>) -> Seq<char> {
    "LLM 请求失败 (HTTP "@ + super::shared::stream::status_line(code) + "): "@
        + super::shared::http::preview(body, api_key, 300)
}

/// What a reply brings, if it brings anything; an error where it has one, readable or not.
pub fn parse_payload(value: &Json) -> (r: Result<Option<ParsedPayload>, String>)
    ensures
        super::providers::openai_chat::payload_view(r) == payload_of(value@),
{
    match value.get("error") {
        Some(error) => {
            let message = match error.str_at("message") {
                Some(message) => message,
                None => match error.as_str() {
                    Some(message) => message,
                    None => "未知 API 错误",
                },
            };
            Err(format_api_error("LLM", message))
        },
        None => parse_choices(value),
    }
}

/// What is said of a request that was refused.
pub(crate) fn describe_refusal(code: u16, body: &str, api_key: &str) -> (r: String)
    requires
        100 <= code < 1000,
    ensures
        r@ == refusal_text(code, body@, api_key@),
{
    let mut r = text::concat("LLM 请求失败 (HTTP ", status_text(code).as_str());
    r.append("): ");
    r.append(safe_preview(body, api_key, 300).as_str());
    r
}

impl OpenAiClient {
    /// Whether this client is the one that a configuration calls for.
    pub open spec fn made_from(self, config: OpenAiConfig) -> bool {
        &&& self.base_url@ == text::trim_end_of(config.base_url@, '/')
        &&& self.model@ == config.model@
        &&& self.api_key@ == config.api_key@
        &&& self.enable_thinking == config.enable_thinking
        &&& self.reasoning_effort@ == if config.reasoning_effort@.len() == 0 {
            "high"@
        } else {
            config.reasoning_effort@
        }
    }

    pub fn new(config: &OpenAiConfig) -> (r: Self)
        ensures
            r.made_from(*config),
            r.base_url@ == text::trim_end_of(config.base_url@, '/'),
            r.model@ == config.model@,
            r.api_key@ == config.api_key@,
            r.enable_thinking == config.enable_thinking,
            r.reasoning_effort@ == if config.reasoning_effort@.len() == 0 {
                "high"@
            } else {
                config.reasoning_effort@
            },
    {
        // A configuration edited by hand may hold no effort.
        let reasoning_effort = if config.reasoning_effort.as_str().is_empty() {
            "high".to_owned()
        } else {
            config.reasoning_effort.clone()
        };
        OpenAiClient {
            base_url: text::trimmed_end_of(config.base_url.as_str(), '/'),
            model: config.model.clone(),
            api_key: config.api_key.clone(),
            enable_thinking: config.enable_thinking,
            reasoning_effort,
        }
    }

    /// The request that asks the model.
    pub open spec fn request(self, quiz: QuizView) -> HttpRequestView {
        super::request::posted(
            self.base_url@,
            Protocol::OpenAiChat,
            self.api_key@,
            super::providers::openai_chat::request_body(
                super::providers::openai_chat::dialect_of(
                    super::providers::openai_chat::host_of(self.base_url@),
                    self.model@,
                ),
                self.model@,
                super::prompt::quiz_prompt(
                    quiz.categories,
                    super::prompt::chat_prompt(quiz.question, quiz.options),
                    self.enable_thinking,
                ),
                self.enable_thinking,
                self.reasoning_effort@,
            ),
        )
    }

    /// The request that asks the model, and the exchange that follows it.
    pub fn ask_stream(&self, question: &str, options: &[String], categories: &[String]) -> (r: (
        HttpRequest,
        Exchange,
    ))
        ensures
            r.0@ == super::request::posted(
                self.base_url@,
                Protocol::OpenAiChat,
                self.api_key@,
                super::providers::openai_chat::request_body(
                    super::providers::openai_chat::dialect_of(
                        super::providers::openai_chat::host_of(self.base_url@),
                        self.model@,
                    ),
                    self.model@,
                    super::prompt::quiz_prompt(
                        text::texts(categories@),
                        super::prompt::chat_prompt(question@, text::texts(options@)),
                        self.enable_thinking,
                    ),
                    self.enable_thinking,
                    self.reasoning_effort@,
                ),
            ),
            r.0@ == self.request(
                (QuizView {
                    question: question@,
                    options: text::texts(options@),
                    categories: text::texts(categories@),
                }),
            ),
            r.1@ == super::exchange::opened(Adapter::OpenAi, self.api_key@),
            r.1@.wf(),
    {
        let prompt = build_quiz_prompt(
            categories,
            build_chat_prompt(question, options).as_str(),
            self.enable_thinking,
        );
        let body = build_request_body(
            api_dialect(self.base_url.as_str(), self.model.as_str()),
            self.model.as_str(),
            prompt.as_str(),
            self.enable_thinking,
            self.reasoning_effort.as_str(),
        );
        (
            post(self.base_url.as_str(), Protocol::OpenAiChat, self.api_key.as_str(), body),
            Exchange::open(Adapter::OpenAi, self.api_key.as_str()),
        )
    }
}

} // verus!
