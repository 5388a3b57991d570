//! The client for the protocol that a configuration calls for.
use super::exchange::{Adapter, Exchange};
use super::jev_exchange::JevExchange;
use super::protocol::{endpoint, Protocol};
use super::providers::claude::ClaudeClient;
use super::providers::gemini::GeminiClient;
use super::providers::gemini_interactions::GeminiInteractionsClient;
use super::providers::jev::{JevClient, JevStart};
use super::providers::openai_chat::OpenAiChatClient;
use super::providers::openai_responses::OpenAiResponsesClient;
use super::request::{HttpRequest, QuizRequest, QuizView};
use super::LlmChunk;
use crate::config::{ConfigView, LlmConfig, OpenAiConfig};
use crate::text;
use vstd::prelude::*;
use vstd::string::*;

verus! {

broadcast use {vstd::seq_lib::group_seq_properties, vstd::string::group_string_axioms};

/// A client, one variant for each protocol.
#[derive(Debug, PartialEq, Eq)]
pub enum LlmClient {
    OpenAiChat(OpenAiChatClient),
    OpenAiResponses(OpenAiResponsesClient),
    Claude(ClaudeClient),
    Gemini(GeminiClient),
    GeminiInteractions(GeminiInteractionsClient),
    Jev(JevClient),
}

/// What comes of asking.
#[derive(Debug)]
pub enum Asked {
    /// Nothing is sent; this is reported.
    Refused(Vec<LlmChunk>),
    /// The request that asks, and the exchange that follows it.
    Exchange(HttpRequest, Exchange),
    /// The request that asks JEV, and the exchange that follows it.
    Jev(HttpRequest, JevExchange),
}

/// Whether what came of asking is this request and an exchange with this adapter.
pub open spec fn is_exchange(
    asked: Asked,
    request: super::request::HttpRequestView,
    adapter: Adapter,
    api_key: Seq<char>,
) -> bool {
    asked matches Asked::Exchange(sent, exchange) && sent@ == request && exchange@
        == super::exchange::opened(adapter, api_key)
}

impl LlmClient {
    /// Whether this client is the one that a configuration calls for.
    pub open spec fn made_from(self, config: ConfigView) -> bool {
        match self {
            LlmClient::OpenAiChat(client) => config.spoken() is OpenAiChat && client.made_from(
                config,
            ),
            LlmClient::OpenAiResponses(client) => config.spoken() is OpenAiResponses
                && client.made_from(config),
            LlmClient::Claude(client) => config.spoken() is Claude && client.made_from(config),
            LlmClient::Gemini(client) => config.spoken() is Gemini && client.made_from(config),
            LlmClient::GeminiInteractions(client) => config.spoken() is GeminiInteractions
                && client.made_from(config),
            LlmClient::Jev(client) => {
                &&& config.spoken() is Jev
                &&& client.endpoint@ == super::protocol::endpoint_of(
                    Protocol::Jev,
                    config.base_url,
                    config.model,
                )
                &&& client.model@ == config.model
                &&& client.api_key@ == config.api_key
            },
        }
    }

    /// The client for the protocol that is set, or else the one that the address points to.
    pub fn new(config: &LlmConfig) -> (r: Self)
        ensures
            r.made_from(config@),
    {
        match config.protocol() {
            Protocol::OpenAiChat => LlmClient::OpenAiChat(OpenAiChatClient::new(config)),
            Protocol::OpenAiResponses => LlmClient::OpenAiResponses(
                OpenAiResponsesClient::new(config),
            ),
            Protocol::Claude => LlmClient::Claude(ClaudeClient::new(config)),
            Protocol::Gemini => LlmClient::Gemini(GeminiClient::new(config)),
            Protocol::GeminiInteractions => LlmClient::GeminiInteractions(
                GeminiInteractionsClient::new(config),
            ),
            Protocol::Jev => {
                let address = endpoint(
                    Protocol::Jev,
                    config.base_url.as_str(),
                    config.model.as_str(),
                );
                proof {
                    reveal_strlit("/systemone");
                    assert(address@.last() == "/systemone"@.last());
                }
                LlmClient::Jev(
                    JevClient::new(
                        &OpenAiConfig {
                            base_url: address,
                            model: config.model.clone(),
                            api_key: config.api_key.clone(),
                            enable_thinking: config.enable_thinking,
                            reasoning_effort: config.reasoning_effort.clone(),
                        },
                    ),
                )
            },
        }
    }

    /// What comes of asking a question.
    pub open spec fn asks(self, quiz: QuizView, asked: Asked) -> bool {
        match self {
            LlmClient::OpenAiChat(client) => is_exchange(
                asked,
                client.request(quiz),
                Adapter::OpenAiChat,
                client.api_key@,
            ),
            LlmClient::OpenAiResponses(client) => is_exchange(
                asked,
                client.request(quiz),
                Adapter::OpenAiResponses,
                client.api_key@,
            ),
            LlmClient::Claude(client) => is_exchange(
                asked,
                client.request(quiz),
                Adapter::Claude,
                client.api_key@,
            ),
            LlmClient::Gemini(client) => is_exchange(
                asked,
                client.request(quiz),
                Adapter::Gemini,
                client.api_key@,
            ),
            LlmClient::GeminiInteractions(client) => is_exchange(
                asked,
                client.request(quiz),
                Adapter::GeminiInteractions,
                client.api_key@,
            ),
            LlmClient::Jev(client) => client.asks(quiz, asked),
        }
    }

    /// Asks a question.
    pub fn ask(&self, request: &QuizRequest) -> (r: Asked)
        ensures
            self.asks(request@, r),
    {
        match self {
            LlmClient::OpenAiChat(client) => {
                let (sent, exchange) = client.ask(request);
                Asked::Exchange(sent, exchange)
            },
            LlmClient::OpenAiResponses(client) => {
                let (sent, exchange) = client.ask(request);
                Asked::Exchange(sent, exchange)
            },
            LlmClient::Claude(client) => {
                let (sent, exchange) = client.ask(request);
                Asked::Exchange(sent, exchange)
            },
            LlmClient::Gemini(client) => {
                let (sent, exchange) = client.ask(request);
                Asked::Exchange(sent, exchange)
            },
            LlmClient::GeminiInteractions(client) => {
                let (sent, exchange) = client.ask(request);
                Asked::Exchange(sent, exchange)
            },
            LlmClient::Jev(client) => match client.ask(
                request.question,
                request.options,
                request.categories,
            ) {
                JevStart::Refused(chunks) => Asked::Refused(chunks),
                JevStart::Asked(sent, exchange) => Asked::Jev(sent, exchange),
            },
        }
    }
}

impl JevClient {
    /// What comes of asking JEV: an error where there is nothing to choose from.
    pub open spec fn asks(self, quiz: QuizView, asked: Asked) -> bool {
        match asked {
            Asked::Refused(chunks) => quiz.options.len() == 0 && super::chunk_views(chunks@)
                == seq![
                super::ChunkView::Error(
                    super::shared::http::redacted("JEV 无法作答：题目没有可选项"@, self.api_key@),
                ),
            ],
            Asked::Jev(sent, exchange) => {
                &&& quiz.options.len() > 0
                &&& sent@ == self.request(quiz.question, quiz.options, quiz.categories)
                &&& exchange@ == super::jev_exchange::opened(
                    self.api_key@,
                    quiz.options.len() as usize,
                )
            },
            Asked::Exchange(_, _) => false,
        }
    }
}

} // verus!
