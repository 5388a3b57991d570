//! What holds of every request that asks a model.
use super::client::{Asked, LlmClient};
use super::exchange::Adapter;
use super::openai::OpenAiClient;
use super::protocol::Protocol;
use super::providers::claude::ClaudeClient;
use super::providers::gemini::GeminiClient;
use super::providers::gemini_interactions::GeminiInteractionsClient;
use super::providers::jev::JevClient;
use super::providers::openai_chat::OpenAiChatClient;
use super::providers::openai_responses::OpenAiResponsesClient;
use super::request::{HttpRequestView, QuizView};
use crate::config::{ConfigView, OpenAiConfig};
use crate::json::JsonView;
use crate::text;
use vstd::prelude::*;
use vstd::string::*;

verus! {

broadcast use {vstd::seq_lib::group_seq_properties, vstd::string::group_string_axioms};

/// The options in quotes, from the first to the last, with a comma and a space between them.
pub open spec fn options_in_order(options: Seq<Seq<char>>) -> Seq<char>
    decreases options.len(),
{
    if options.len() == 0 {
        seq![]
    } else if options.len() == 1 {
        super::prompt::quoted(options[0])
    } else {
        super::prompt::quoted(options[0]) + ", "@ + options_in_order(options.skip(1))
    }
}

/// The categories from the first to the last, with a mark between them.
pub open spec fn categories_in_order(categories: Seq<Seq<char>>) -> Seq<char>
    decreases categories.len(),
{
    if categories.len() == 0 {
        seq![]
    } else if categories.len() == 1 {
        categories[0]
    } else {
        categories[0] + "、"@ + categories_in_order(categories.skip(1))
    }
}

proof fn lemma_options(options: Seq<Seq<char>>)
    ensures
        text::join(
            options.map_values(|item: Seq<char>| super::prompt::quoted(item)),
            ", "@,
        ) == options_in_order(options),
    decreases options.len(),
{
    let quoted = options.map_values(|item: Seq<char>| super::prompt::quoted(item));
    if options.len() > 1 {
        let rest = options.skip(1);
        lemma_options(rest);
        text::law_join_from_the_front(quoted, ", "@);
        assert(quoted.skip(1) =~= rest.map_values(
            |item: Seq<char>| super::prompt::quoted(item),
        ));
    }
}

proof fn lemma_categories(categories: Seq<Seq<char>>)
    ensures
        text::join(categories, "、"@) == categories_in_order(categories),
    decreases categories.len(),
{
    if categories.len() > 1 {
        lemma_categories(categories.skip(1));
        text::law_join_from_the_front(categories, "、"@);
    }
}

/// The question and its options, as they stand at the end of what a model is asked.
pub open spec fn question_with_options(quiz: QuizView) -> Seq<char> {
    "题目:"@ + quiz.question + "\n答案:"@ + ("["@ + options_in_order(quiz.options) + "]"@)
}

/// The question, the options and, where the model is not to think, the word on that before
/// them.
pub open spec fn asked(quiz: QuizView, thinking: bool) -> Seq<char> {
    if thinking {
        question_with_options(quiz)
    } else {
        "不要思考，直接回答我的问题："@ + question_with_options(quiz)
    }
}

/// Whether a text tells the model what it is to do, and which categories the questions are
/// from.
pub open spec fn names_categories(system: Seq<char>, quiz: QuizView) -> bool {
    system == "你是一个资深B站用户，目前正在完成硬核会员试炼考试，考试内容涉及的分区：["@ + (if quiz.categories.len()
        == 0 {
        "未知"@
    } else {
        categories_in_order(quiz.categories)
    }) + "]，面对选择题时，直接根据问题和选项判断正确答案，并返回对应选项的序号（1, 2, 3, 4）。示例：\n问题：大的反义词是什么？\n选项：['长', '宽', '小', '热']\n回答：3\n如果不确定正确答案，选择最接近的选项序号返回，不提供额外解释或超出 1-4 的内容。"@
}

proof fn lemma_asked(quiz: QuizView, thinking: bool)
    ensures
        super::prompt::question_text(
            super::prompt::chat_prompt(quiz.question, quiz.options),
            thinking,
        ) == asked(quiz, thinking),
{
    lemma_options(quiz.options);
}

proof fn lemma_system(quiz: QuizView)
    ensures
        names_categories(super::prompt::system_prompt(quiz.categories), quiz),
{
    lemma_categories(quiz.categories);
}

/// Whether a text is the system text, which names the categories, and behind it what is
/// asked.
pub open spec fn is_whole_prompt(prompt: Seq<char>, quiz: QuizView, thinking: bool) -> bool {
    exists|system: Seq<char>| #[trigger]
        names_categories(system, quiz) && prompt == system + "\n---\n"@ + asked(quiz, thinking)
}

proof fn lemma_whole_prompt(quiz: QuizView, thinking: bool)
    ensures
        is_whole_prompt(
            super::prompt::quiz_prompt(
                quiz.categories,
                super::prompt::chat_prompt(quiz.question, quiz.options),
                thinking,
            ),
            quiz,
            thinking,
        ),
{
    lemma_asked(quiz, thinking);
    lemma_system(quiz);
    assert(names_categories(super::prompt::system_prompt(quiz.categories), quiz));
}

/// The saved effort, or `high` where none is saved.
pub open spec fn wanted_effort(saved: Seq<char>) -> Seq<char> {
    if text::trim(saved).len() == 0 {
        "high"@
    } else {
        saved
    }
}

/// The key lengths and first letters that tell the keys of a body apart.
proof fn lemma_keys()
    ensures
        "role"@.len() == 4 && "type"@.len() == 4 && "text"@.len() == 4,
        "model"@.len() == 5 && "input"@.len() == 5 && "store"@.len() == 5 && "state"@.len() == 5,
        "parts"@.len() == 5,
        "model"@[0] == 'm' && "input"@[0] == 'i' && "store"@[0] == 's' && "state"@[0] == 's',
        "stream"@.len() == 6 && "system"@.len() == 6 && "effort"@.len() == 6,
        "stream"@[1] == 't' && "system"@[1] == 'y' && "answer"@.len() == 6,
        "content"@.len() == 7 && "summary"@.len() == 7,
        "messages"@.len() == 8 && "thinking"@.len() == 8 && "contents"@.len() == 8,
        "criteria"@.len() == 8 && "question"@.len() == 8,
        "messages"@[0] == 'm' && "thinking"@[0] == 't',
        "reasoning"@.len() == 9 && "questions"@.len() == 9,
        "max_tokens"@.len() == 10 && "categories"@.len() == 10,
        "instructions"@.len() == 12,
        "output_config"@.len() == 13 && "thinkingLevel"@.len() == 13,
        "thinkingConfig"@.len() == 14 && "thinking_level"@.len() == 14,
        "enable_thinking"@.len() == 15 && "maxOutputTokens"@.len() == 15,
        "includeThoughts"@.len() == 15,
        "reasoning_effort"@.len() == 16 && "generationConfig"@.len() == 16,
        "max_output_tokens"@.len() == 17 && "systemInstruction"@.len() == 17,
        "generation_config"@.len() == 17,
        "max_completion_tokens"@.len() == 21,
{
    reveal_strlit("role");
    reveal_strlit("type");
    reveal_strlit("text");
    reveal_strlit("model");
    reveal_strlit("input");
    reveal_strlit("store");
    reveal_strlit("state");
    reveal_strlit("parts");
    reveal_strlit("stream");
    reveal_strlit("system");
    reveal_strlit("effort");
    reveal_strlit("answer");
    reveal_strlit("content");
    reveal_strlit("summary");
    reveal_strlit("messages");
    reveal_strlit("thinking");
    reveal_strlit("contents");
    reveal_strlit("criteria");
    reveal_strlit("question");
    reveal_strlit("reasoning");
    reveal_strlit("questions");
    reveal_strlit("max_tokens");
    reveal_strlit("categories");
    reveal_strlit("instructions");
    reveal_strlit("output_config");
    reveal_strlit("thinkingLevel");
    reveal_strlit("thinkingConfig");
    reveal_strlit("thinking_level");
    reveal_strlit("enable_thinking");
    reveal_strlit("maxOutputTokens");
    reveal_strlit("includeThoughts");
    reveal_strlit("reasoning_effort");
    reveal_strlit("generationConfig");
    reveal_strlit("max_output_tokens");
    reveal_strlit("systemInstruction");
    reveal_strlit("generation_config");
    reveal_strlit("max_completion_tokens");
}

/// Whether a request goes to the endpoint of the settings, as JSON, and shows the key in the
/// given header.
pub open spec fn goes_to(
    sent: HttpRequestView,
    protocol: Protocol,
    config: ConfigView,
    name: Seq<char>,
    value: Seq<char>,
) -> bool {
    &&& sent.url == super::protocol::endpoint_of(protocol, config.base_url, config.model)
    &&& sent.headers == if protocol is Claude {
        seq![
            ("Content-Type"@, "application/json"@),
            (name, value),
            ("anthropic-version"@, "2023-06-01"@),
        ]
    } else {
        seq![("Content-Type"@, "application/json"@), (name, value)]
    }
}

proof fn lemma_headers(protocol: Protocol, api_key: Seq<char>)
    ensures
        ({
            let json = ("Content-Type"@, "application/json"@);
            let headers = seq![json] + super::shared::auth::auth_headers(protocol, api_key);
            headers == match protocol {
                Protocol::Claude => seq![
                    json,
                    ("x-api-key"@, api_key),
                    ("anthropic-version"@, "2023-06-01"@),
                ],
                Protocol::Gemini | Protocol::GeminiInteractions => seq![
                    json,
                    ("x-goog-api-key"@, api_key),
                ],
                _ => seq![json, ("Authorization"@, "Bearer "@ + api_key)],
            }
        }),
{
}

/// Whether a body has so many entries and no more.
pub open spec fn has_entries(body: JsonView, count: nat) -> bool {
    body matches JsonView::Object(entries) && entries.len() == count
}

/// Whether a body holds a list of one message of the user under `messages`, with the given
/// content.
pub open spec fn has_user_message(body: JsonView, content: Seq<char>) -> bool {
    body.get("messages"@) matches Some(JsonView::Array(messages)) && messages.len() == 1
        && messages[0].get("role"@) == Some(JsonView::Text("user"@)) && messages[0].get(
        "content"@,
    ) == Some(JsonView::Text(content))
}

/// Whether a value is a list of one part with the given text.
pub open spec fn is_one_part(value: Option<JsonView>, content: Seq<char>) -> bool {
    value matches Some(JsonView::Array(parts)) && parts.len() == 1 && parts[0].get("text"@) == Some(
        JsonView::Text(content),
    )
}

/// Anthropic is asked for the model of the settings: the system text names the categories,
/// and the one message of the user is the question with all its options in their order. An
/// effort that Anthropic knows is asked for as it is saved.
pub proof fn law_anthropic_is_asked(client: ClaudeClient, config: ConfigView, quiz: QuizView)
    requires
        client.made_from(config),
    ensures
        ({
            let sent = client.request(quiz);
            let saved = text::lower(text::trim(wanted_effort(config.reasoning_effort)));
            &&& goes_to(sent, Protocol::Claude, config, "x-api-key"@, config.api_key)
            &&& has_entries(sent.body, 6)
            &&& sent.body.get("model"@) == Some(JsonView::Text(config.model))
            &&& sent.body.get("stream"@) == Some(JsonView::Bool(true))
            &&& has_user_message(sent.body, asked(quiz, config.enable_thinking))
            &&& sent.body.get("system"@) matches Some(JsonView::Text(system))
                && names_categories(system, quiz)
            &&& config.enable_thinking && super::efforts::anthropic_knows(saved)
                ==> sent.body.get2("output_config"@, "effort"@) == Some(JsonView::Text(saved))
            &&& config.enable_thinking && !super::efforts::anthropic_knows(saved)
                ==> sent.body.get2("output_config"@, "effort"@) == Some(JsonView::Text("high"@))
            &&& !config.enable_thinking ==> sent.body.get2("output_config"@, "effort"@) == Some(
                JsonView::Text("low"@),
            )
            &&& sent.body.get("max_tokens"@) matches Some(bound) && bound.unsigned() == Some(
                if !config.enable_thinking {
                    4096u64
                } else if saved == "low"@ {
                    8192u64
                } else if saved == "xhigh"@ || saved == "max"@ {
                    65536u64
                } else {
                    16384u64
                },
            )
        }),
{
    lemma_headers(Protocol::Claude, config.api_key);
    lemma_asked(quiz, config.enable_thinking);
    lemma_system(quiz);
    lemma_keys();
    let sent = client.request(quiz);
    let body = sent.body->Object_0;
    crate::json::law_lookup_finds_the_first(body, "model"@, 0);
    crate::json::law_lookup_finds_the_first(body, "max_tokens"@, 1);
    crate::json::law_lookup_finds_the_first(body, "stream"@, 2);
    crate::json::law_lookup_finds_the_first(body, "system"@, 3);
    crate::json::law_lookup_finds_the_first(body, "messages"@, 4);
    crate::json::law_lookup_finds_the_first(body, "output_config"@, 5);
    crate::json::law_lookup_finds_the_first(body[5].1->Object_0, "effort"@, 0);
    let message = body[4].1->Array_0[0]->Object_0;
    crate::json::law_lookup_finds_the_first(message, "role"@, 0);
    crate::json::law_lookup_finds_the_first(message, "content"@, 1);
}

proof fn lemma_chat_body(
    dialect: super::providers::openai_chat::ApiDialect,
    model: Seq<char>,
    prompt: Seq<char>,
    thinking: bool,
    effort: Seq<char>,
)
    ensures
        ({
            let body = super::providers::openai_chat::request_body(
                dialect,
                model,
                prompt,
                thinking,
                effort,
            );
            let tail = super::providers::openai_chat::dialect_entries(dialect, thinking, effort);
            &&& body.get("model"@) == Some(JsonView::Text(model))
            &&& body.get("stream"@) == Some(JsonView::Bool(true))
            &&& has_user_message(body, prompt)
            &&& body.get("reasoning_effort"@) == Some(tail.last().1)
            &&& dialect is Extended ==> body.get("max_tokens"@) == Some(tail[0].1)
            &&& !(dialect is Extended) ==> body.get("max_completion_tokens"@) == Some(tail[0].1)
            &&& dialect is Extended ==> body.get("enable_thinking"@) == Some(tail[1].1)
                && body.get2("thinking"@, "type"@) == tail[2].1.get("type"@)
            &&& !(dialect is Extended) ==> body.get("enable_thinking"@) is None && body.get(
                "thinking"@,
            ) is None && body.get("max_tokens"@) is None
            &&& dialect is Extended ==> body.get("max_completion_tokens"@) is None
        }),
{
    lemma_keys();
    let common = super::providers::openai_chat::common_entries(model, prompt);
    let tail = super::providers::openai_chat::dialect_entries(dialect, thinking, effort);
    let body = common + tail;
    assert(body[0] == common[0] && body[1] == common[1] && body[2] == common[2]);
    assert forall|i: int| 3 <= i < body.len() implies #[trigger] body[i] == tail[i - 3] by {}
    crate::json::law_lookup_finds_the_first(body, "model"@, 0);
    crate::json::law_lookup_finds_the_first(body, "stream"@, 1);
    crate::json::law_lookup_finds_the_first(body, "messages"@, 2);
    let message = common[2].1->Array_0[0]->Object_0;
    crate::json::law_lookup_finds_the_first(message, "role"@, 0);
    crate::json::law_lookup_finds_the_first(message, "content"@, 1);
    crate::json::law_lookup_finds_the_first(body, "reasoning_effort"@, body.len() - 1);
    if dialect is Extended {
        crate::json::law_lookup_finds_the_first(body, "max_tokens"@, 3);
        crate::json::law_lookup_finds_the_first(body, "enable_thinking"@, 4);
        crate::json::law_lookup_finds_the_first(body, "thinking"@, 5);
        crate::json::law_lookup_misses(body, "max_completion_tokens"@);
    } else {
        crate::json::law_lookup_finds_the_first(body, "max_completion_tokens"@, 3);
        crate::json::law_lookup_misses(body, "enable_thinking"@);
        crate::json::law_lookup_misses(body, "thinking"@);
        crate::json::law_lookup_misses(body, "max_tokens"@);
    }
}

/// Whether a body tells a service of Chat Completions at this address about thinking in its
/// own terms: OpenAI the saved effort or `none`, xAI an effort that it has, every other
/// service in its switches too.
pub open spec fn tells_of_thinking(
    body: JsonView,
    url: Seq<char>,
    model: Seq<char>,
    thinking: bool,
    effort: Seq<char>,
) -> bool {
    let host = match super::url::url_of(url) {
        Some(parts) => parts.host,
        None => None,
    };
    let xai = host == Some("api.x.ai"@) || "grok-"@.is_prefix_of(text::lower(text::trim(model)));
    let known = text::lower(text::trim(effort));
    let plain = if thinking {
        effort
    } else {
        "none"@
    };
    if host == Some("api.openai.com"@) {
        &&& has_entries(body, 5)
        &&& body.get("max_completion_tokens"@) matches Some(bound) && bound.unsigned() == Some(
            128u64,
        )
        &&& body.get("reasoning_effort"@) == Some(JsonView::Text(plain))
        &&& body.get("enable_thinking"@) is None
        &&& body.get("thinking"@) is None
    } else if xai {
        &&& has_entries(body, 5)
        &&& body.get("max_completion_tokens"@) matches Some(bound) && bound.unsigned() == Some(
            128u64,
        )
        &&& thinking && !super::efforts::xai_knows(known) && known != "max"@ ==> body.get(
            "reasoning_effort"@,
        ) == Some(JsonView::Text("high"@))
        &&& thinking && super::efforts::xai_knows(known) ==> body.get("reasoning_effort"@) == Some(
            JsonView::Text(known),
        )
        &&& thinking && known == "max"@ ==> body.get("reasoning_effort"@) == Some(
            JsonView::Text("xhigh"@),
        )
        &&& !thinking ==> body.get("reasoning_effort"@) == Some(JsonView::Text("low"@))
        &&& body.get("enable_thinking"@) is None
        &&& body.get("thinking"@) is None
    } else {
        &&& has_entries(body, 7)
        &&& body.get("max_tokens"@) matches Some(bound) && bound.unsigned() == Some(128u64)
        &&& body.get("reasoning_effort"@) == Some(JsonView::Text(plain))
        &&& body.get("enable_thinking"@) == Some(JsonView::Bool(thinking))
        &&& body.get2("thinking"@, "type"@) == Some(
            JsonView::Text(
                if thinking {
                    "enabled"@
                } else {
                    "disabled"@
                },
            ),
        )
    }
}

proof fn lemma_tells_of_thinking(
    url: Seq<char>,
    model: Seq<char>,
    prompt: Seq<char>,
    thinking: bool,
    effort: Seq<char>,
)
    ensures
        tells_of_thinking(
            super::providers::openai_chat::request_body(
                super::providers::openai_chat::dialect_of(
                    super::providers::openai_chat::host_of(url),
                    model,
                ),
                model,
                prompt,
                thinking,
                effort,
            ),
            url,
            model,
            thinking,
            effort,
        ),
{
    let dialect = super::providers::openai_chat::dialect_of(
        super::providers::openai_chat::host_of(url),
        model,
    );
    lemma_chat_body(dialect, model, prompt, thinking, effort);
    super::efforts::lemma_names_are_lower();
    lemma_effort_names();
    let tail = super::providers::openai_chat::dialect_entries(dialect, thinking, effort);
    if dialect is Extended {
        crate::json::law_lookup_finds_the_first(tail[2].1->Object_0, "type"@, 0);
    }
}

/// A service of Chat Completions is asked for the model of the settings in one message: the
/// system text, which names the categories, and the question with all its options in their
/// order.
pub proof fn law_chat_is_asked(client: OpenAiChatClient, config: ConfigView, quiz: QuizView)
    requires
        client.made_from(config),
    ensures
        ({
            let sent = client.request(quiz);
            &&& goes_to(
                sent,
                Protocol::OpenAiChat,
                config,
                "Authorization"@,
                "Bearer "@ + config.api_key,
            )
            &&& sent.body.get("model"@) == Some(JsonView::Text(config.model))
            &&& sent.body.get("stream"@) == Some(JsonView::Bool(true))
            &&& exists|prompt: Seq<char>| #[trigger]
                has_user_message(sent.body, prompt) && is_whole_prompt(
                    prompt,
                    quiz,
                    config.enable_thinking,
                )
            &&& tells_of_thinking(
                sent.body,
                sent.url,
                config.model,
                config.enable_thinking,
                wanted_effort(config.reasoning_effort),
            )
        }),
{
    lemma_headers(Protocol::OpenAiChat, config.api_key);
    lemma_whole_prompt(quiz, config.enable_thinking);
    let prompt = super::prompt::quiz_prompt(
        quiz.categories,
        super::prompt::chat_prompt(quiz.question, quiz.options),
        config.enable_thinking,
    );
    let effort = wanted_effort(config.reasoning_effort);
    let dialect = super::providers::openai_chat::dialect_of(
        super::providers::openai_chat::host_of(client.endpoint@),
        config.model,
    );
    lemma_chat_body(dialect, config.model, prompt, config.enable_thinking, effort);
    lemma_tells_of_thinking(
        client.endpoint@,
        config.model,
        prompt,
        config.enable_thinking,
        effort,
    );
    assert(has_user_message(client.request(quiz).body, prompt));
}

/// The client of the older settings asks at its address as it stands, for its own model, in
/// one message that holds the question with all its options in their order.
pub proof fn law_openai_is_asked(client: OpenAiClient, quiz: QuizView)
    ensures
        ({
            let sent = client.request(quiz);
            &&& sent.url == client.base_url@
            &&& sent.headers == seq![
                ("Content-Type"@, "application/json"@),
                ("Authorization"@, "Bearer "@ + client.api_key@),
            ]
            &&& sent.body.get("model"@) == Some(JsonView::Text(client.model@))
            &&& sent.body.get("stream"@) == Some(JsonView::Bool(true))
            &&& exists|prompt: Seq<char>| #[trigger]
                has_user_message(sent.body, prompt) && is_whole_prompt(
                    prompt,
                    quiz,
                    client.enable_thinking,
                )
            &&& tells_of_thinking(
                sent.body,
                sent.url,
                client.model@,
                client.enable_thinking,
                client.reasoning_effort@,
            )
        }),
{
    lemma_whole_prompt(quiz, client.enable_thinking);
    let prompt = super::prompt::quiz_prompt(
        quiz.categories,
        super::prompt::chat_prompt(quiz.question, quiz.options),
        client.enable_thinking,
    );
    let dialect = super::providers::openai_chat::dialect_of(
        super::providers::openai_chat::host_of(client.base_url@),
        client.model@,
    );
    lemma_chat_body(
        dialect,
        client.model@,
        prompt,
        client.enable_thinking,
        client.reasoning_effort@,
    );
    lemma_tells_of_thinking(
        client.base_url@,
        client.model@,
        prompt,
        client.enable_thinking,
        client.reasoning_effort@,
    );
    assert(client.request(quiz).headers =~= seq![
        ("Content-Type"@, "application/json"@),
        ("Authorization"@, "Bearer "@ + client.api_key@),
    ]);
    assert(has_user_message(client.request(quiz).body, prompt));
}

/// A service of Responses is asked for the model of the settings, with the system text and
/// the question with all its options in their order as its input. An effort that the service
/// knows is asked for as it is saved, and nothing is to be kept.
pub proof fn law_responses_are_asked(
    client: OpenAiResponsesClient,
    config: ConfigView,
    quiz: QuizView,
)
    requires
        client.made_from(config),
    ensures
        ({
            let sent = client.request(quiz);
            let saved = text::lower(text::trim(wanted_effort(config.reasoning_effort)));
            let host = match super::url::url_of(sent.url) {
                Some(parts) => parts.host,
                None => None,
            };
            let xai = host == Some("api.x.ai"@) || "grok-"@.is_prefix_of(
                text::lower(text::trim(config.model)),
            );
            let effort = sent.body.get2("reasoning"@, "effort"@);
            &&& goes_to(
                sent,
                Protocol::OpenAiResponses,
                config,
                "Authorization"@,
                "Bearer "@ + config.api_key,
            )
            &&& sent.body.get("model"@) == Some(JsonView::Text(config.model))
            &&& sent.body.get("stream"@) == Some(JsonView::Bool(true))
            &&& has_entries(sent.body, 6)
            &&& sent.body.get("store"@) == Some(JsonView::Bool(false))
            &&& sent.body.get("input"@) matches Some(JsonView::Text(prompt)) && is_whole_prompt(
                prompt,
                quiz,
                config.enable_thinking,
            )
            &&& config.enable_thinking && !xai && super::efforts::openai_knows(saved) ==> effort
                == Some(JsonView::Text(saved))
            &&& config.enable_thinking && xai && super::efforts::xai_knows(saved) ==> effort == Some(
                JsonView::Text(saved),
            )
            &&& config.enable_thinking && xai && saved == "max"@ ==> effort == Some(
                JsonView::Text("xhigh"@),
            )
            &&& config.enable_thinking && xai && saved == "minimal"@ ==> effort == Some(
                JsonView::Text("low"@),
            )
            &&& config.enable_thinking && !xai && !super::efforts::openai_knows(saved) ==> effort
                == Some(JsonView::Text("high"@))
            &&& config.enable_thinking && xai && !super::efforts::xai_knows(saved) && saved
                != "max"@ && saved != "minimal"@ ==> effort == Some(JsonView::Text("high"@))
            &&& sent.body.get("max_output_tokens"@) matches Some(bound) && bound.unsigned() == Some(
                128u64,
            )
            &&& !config.enable_thinking ==> effort == Some(
                JsonView::Text(
                    if xai {
                        "low"@
                    } else {
                        "minimal"@
                    },
                ),
            )
            &&& (sent.body.get2("reasoning"@, "summary"@) is Some) == (config.enable_thinking
                && !xai)
        }),
{
    lemma_headers(Protocol::OpenAiResponses, config.api_key);
    lemma_whole_prompt(quiz, config.enable_thinking);
    lemma_keys();
    lemma_effort_names();
    let body = client.request(quiz).body->Object_0;
    crate::json::law_lookup_finds_the_first(body, "model"@, 0);
    crate::json::law_lookup_finds_the_first(body, "stream"@, 1);
    crate::json::law_lookup_finds_the_first(body, "input"@, 2);
    crate::json::law_lookup_finds_the_first(body, "max_output_tokens"@, 3);
    crate::json::law_lookup_finds_the_first(body, "reasoning"@, 4);
    crate::json::law_lookup_finds_the_first(body, "store"@, 5);
    let reasoning = body[4].1->Object_0;
    crate::json::law_lookup_finds_the_first(reasoning, "effort"@, 0);
    if reasoning.len() == 2 {
        crate::json::law_lookup_finds_the_first(reasoning, "summary"@, 1);
    } else {
        crate::json::law_lookup_misses(reasoning, "summary"@);
    }
}

proof fn lemma_effort_names()
    ensures
        "minimal"@.len() == 7 && "low"@.len() == 3 && "medium"@.len() == 6 && "high"@.len() == 4,
        "xhigh"@.len() == 5 && "max"@.len() == 3 && "low"@[0] == 'l' && "max"@[0] == 'm',
{
    reveal_strlit("minimal");
    reveal_strlit("low");
    reveal_strlit("medium");
    reveal_strlit("high");
    reveal_strlit("xhigh");
    reveal_strlit("max");
}

/// Gemini is asked with the system text, which names the categories, as its instruction, and
/// one content of the user whose one part is the question with all its options in their
/// order. A level that Gemini knows is asked for as it is saved, and thoughts are asked for
/// where there is thinking.
pub proof fn law_gemini_is_asked(client: GeminiClient, config: ConfigView, quiz: QuizView)
    requires
        client.made_from(config),
    ensures
        ({
            let sent = client.request(quiz);
            let saved = text::lower(text::trim(wanted_effort(config.reasoning_effort)));
            let generation = sent.body.get("generationConfig"@);
            let thinking = generation->0.get("thinkingConfig"@);
            &&& goes_to(sent, Protocol::Gemini, config, "x-goog-api-key"@, config.api_key)
            &&& exists|system: Seq<char>| #[trigger]
                names_categories(system, quiz) && is_one_part(
                    sent.body.get2("systemInstruction"@, "parts"@),
                    system,
                )
            &&& sent.body.get("contents"@) matches Some(JsonView::Array(contents))
                && contents.len() == 1 && contents[0].get("role"@) == Some(JsonView::Text("user"@))
                && is_one_part(contents[0].get("parts"@), asked(quiz, config.enable_thinking))
            &&& has_entries(sent.body, 3)
            &&& generation is Some && thinking is Some
            &&& thinking->0.get("includeThoughts"@) == Some(JsonView::Bool(config.enable_thinking))
            &&& config.enable_thinking && super::efforts::gemini_knows(saved) ==> thinking->0.get(
                "thinkingLevel"@,
            ) == Some(JsonView::Text(saved))
            &&& config.enable_thinking && !super::efforts::gemini_knows(saved) ==> thinking->0.get(
                "thinkingLevel"@,
            ) == Some(JsonView::Text("high"@))
            &&& !config.enable_thinking ==> thinking->0.get("thinkingLevel"@) == Some(
                JsonView::Text("low"@),
            )
            &&& generation->0.get("maxOutputTokens"@) matches Some(bound) && bound.unsigned()
                == Some(128u64)
        }),
{
    lemma_headers(Protocol::Gemini, config.api_key);
    lemma_asked(quiz, config.enable_thinking);
    lemma_system(quiz);
    lemma_keys();
    lemma_effort_names();
    let body = client.request(quiz).body->Object_0;
    crate::json::law_lookup_finds_the_first(body, "systemInstruction"@, 0);
    crate::json::law_lookup_finds_the_first(body, "contents"@, 1);
    crate::json::law_lookup_finds_the_first(body, "generationConfig"@, 2);
    let instruction = body[0].1->Object_0;
    crate::json::law_lookup_finds_the_first(instruction, "parts"@, 0);
    crate::json::law_lookup_finds_the_first(
        instruction[0].1->Array_0[0]->Object_0,
        "text"@,
        0,
    );
    let content = body[1].1->Array_0[0]->Object_0;
    crate::json::law_lookup_finds_the_first(content, "role"@, 0);
    crate::json::law_lookup_finds_the_first(content, "parts"@, 1);
    crate::json::law_lookup_finds_the_first(content[1].1->Array_0[0]->Object_0, "text"@, 0);
    let generation = body[2].1->Object_0;
    crate::json::law_lookup_finds_the_first(generation, "maxOutputTokens"@, 0);
    crate::json::law_lookup_finds_the_first(generation, "thinkingConfig"@, 1);
    let thinking = generation[1].1->Object_0;
    crate::json::law_lookup_finds_the_first(thinking, "thinkingLevel"@, 0);
    crate::json::law_lookup_finds_the_first(thinking, "includeThoughts"@, 1);
    let system = super::prompt::system_prompt(quiz.categories);
    assert(names_categories(system, quiz) && is_one_part(
        client.request(quiz).body.get2("systemInstruction"@, "parts"@),
        system,
    ));
}

/// Gemini Interactions is asked for the model of the settings, with the system text and the
/// question with all its options in their order as its input. A level that Gemini knows is
/// asked for as it is saved, and nothing is to be kept.
pub proof fn law_interactions_are_asked(
    client: GeminiInteractionsClient,
    config: ConfigView,
    quiz: QuizView,
)
    requires
        client.made_from(config),
    ensures
        ({
            let sent = client.request(quiz);
            let saved = text::lower(text::trim(wanted_effort(config.reasoning_effort)));
            let level = sent.body.get2("generation_config"@, "thinking_level"@);
            &&& goes_to(
                sent,
                Protocol::GeminiInteractions,
                config,
                "x-goog-api-key"@,
                config.api_key,
            )
            &&& sent.body.get("model"@) == Some(JsonView::Text(config.model))
            &&& has_entries(sent.body, 4)
            &&& sent.body.get("store"@) == Some(JsonView::Bool(false))
            &&& sent.body.get("stream"@) is None
            &&& sent.body.get("input"@) matches Some(JsonView::Text(prompt)) && is_whole_prompt(
                prompt,
                quiz,
                config.enable_thinking,
            )
            &&& config.enable_thinking && super::efforts::gemini_knows(saved) ==> level == Some(
                JsonView::Text(saved),
            )
            &&& config.enable_thinking && !super::efforts::gemini_knows(saved) ==> level == Some(
                JsonView::Text("high"@),
            )
            &&& !config.enable_thinking ==> level == Some(JsonView::Text("low"@))
        }),
{
    lemma_headers(Protocol::GeminiInteractions, config.api_key);
    lemma_whole_prompt(quiz, config.enable_thinking);
    lemma_keys();
    lemma_effort_names();
    let body = client.request(quiz).body->Object_0;
    crate::json::law_lookup_finds_the_first(body, "model"@, 0);
    crate::json::law_lookup_finds_the_first(body, "input"@, 1);
    crate::json::law_lookup_finds_the_first(body, "generation_config"@, 2);
    crate::json::law_lookup_finds_the_first(body, "store"@, 3);
    crate::json::law_lookup_misses(body, "stream"@);
    crate::json::law_lookup_finds_the_first(body[2].1->Object_0, "thinking_level"@, 0);
}

/// Whether a list of entries holds the options in their order, each under its number, and
/// nothing else.
pub open spec fn numbers_options(value: Option<JsonView>, options: Seq<Seq<char>>) -> bool {
    &&& value matches Some(JsonView::Object(entries)) && entries.len() == options.len()
    &&& forall|i: int|
        0 <= i < options.len() ==> value->0.get(#[trigger] text::decimal((i + 1) as nat)) == Some(
            JsonView::Text(options[i]),
        )
}

/// JEV is asked for its model at its own address: the criteria are the options and nothing
/// else, each under its number, counted from one; the state holds the question, and the list
/// of the categories exactly where there are any.
pub proof fn law_jev_is_asked(
    client: JevClient,
    question: Seq<char>,
    options: Seq<Seq<char>>,
    categories: Seq<Seq<char>>,
)
    ensures
        ({
            let sent = client.request(question, options, categories);
            let answer = sent.body.get2("questions"@, "answer"@);
            &&& sent.url == client.endpoint@
            &&& sent.headers == seq![
                ("Content-Type"@, "application/json"@),
                ("Authorization"@, "Bearer "@ + client.api_key@),
            ]
            &&& sent.body.get("model"@) == Some(JsonView::Text(client.model@))
            &&& sent.body.get2("state"@, "question"@) == Some(JsonView::Text(question))
            &&& categories.len() == 0 ==> sent.body.get2("state"@, "categories"@) is None
            &&& categories.len() > 0 ==> {
                &&& sent.body.get2("state"@, "categories"@) matches Some(JsonView::Array(items))
                    && items.len() == categories.len()
                &&& forall|i: int|
                    0 <= i < categories.len() ==> sent.body.get2("state"@, "categories"@)->0->Array_0[i]
                        == JsonView::Text(#[trigger] categories[i])
            }
            &&& has_entries(sent.body, 3)
            &&& answer is Some
            &&& has_entries(answer->0, 3)
            &&& answer->0.get("type"@) == Some(JsonView::Text("choice"@))
            &&& numbers_options(answer->0.get("criteria"@), options)
        }),
{
    lemma_keys();
    let sent = client.request(question, options, categories);
    let body = sent.body->Object_0;
    assert(sent.headers =~= seq![
        ("Content-Type"@, "application/json"@),
        ("Authorization"@, "Bearer "@ + client.api_key@),
    ]);
    crate::json::law_lookup_finds_the_first(body, "state"@, 0);
    crate::json::law_lookup_finds_the_first(body, "model"@, 1);
    crate::json::law_lookup_finds_the_first(body, "questions"@, 2);
    let state = body[0].1->Object_0;
    crate::json::law_lookup_finds_the_first(state, "question"@, 0);
    if categories.len() == 0 {
        crate::json::law_lookup_misses(state, "categories"@);
    } else {
        crate::json::law_lookup_finds_the_first(state, "categories"@, 1);
    }
    crate::json::law_lookup_finds_the_first(body[2].1->Object_0, "answer"@, 0);
    let choice = body[2].1->Object_0[0].1->Object_0;
    crate::json::law_lookup_finds_the_first(choice, "type"@, 0);
    crate::json::law_lookup_finds_the_first(choice, "criteria"@, 2);
    let entries = choice[2].1->Object_0;
    assert forall|i: int| 0 <= i < options.len() implies JsonView::Object(entries).get(
        #[trigger] text::decimal((i + 1) as nat),
    ) == Some(JsonView::Text(options[i])) by {
        text::lemma_decimal((i + 1) as nat);
        assert forall|j: int| 0 <= j < i implies entries[j].0 != text::decimal(
            (i + 1) as nat,
        ) by {
            text::lemma_decimal((j + 1) as nat);
        }
        crate::json::law_lookup_finds_the_first(entries, text::decimal((i + 1) as nat), i);
    }
}

/// The text with which the user asks in a body of a protocol.
pub open spec fn user_text(protocol: Protocol, body: JsonView) -> Option<Seq<char>> {
    match protocol {
        Protocol::OpenAiChat | Protocol::Claude => match body.get("messages"@) {
            Some(JsonView::Array(messages)) => messages[0].text_at("content"@),
            _ => None,
        },
        Protocol::OpenAiResponses | Protocol::GeminiInteractions => body.text_at("input"@),
        Protocol::Gemini => match body.get("contents"@) {
            Some(JsonView::Array(contents)) => match contents[0].get("parts"@) {
                Some(JsonView::Array(parts)) => parts[0].text_at("text"@),
                _ => None,
            },
            _ => None,
        },
        Protocol::Jev => None,
    }
}

/// Whether an adapter reads the replies of a protocol.
pub open spec fn reads_for(protocol: Protocol, adapter: Adapter) -> bool {
    match protocol {
        Protocol::OpenAiChat => adapter is OpenAiChat,
        Protocol::OpenAiResponses => adapter is OpenAiResponses,
        Protocol::Claude => adapter is Claude,
        Protocol::Gemini => adapter is Gemini,
        Protocol::GeminiInteractions => adapter is GeminiInteractions,
        Protocol::Jev => false,
    }
}

/// Whatever protocol the settings call for, what is sent goes to its endpoint and asks the
/// question with all its options in their order. JEV gets them in fields of their own and is
/// not asked where there is nothing to choose from.
pub proof fn law_settings_are_asked(
    client: LlmClient,
    config: ConfigView,
    quiz: QuizView,
    outcome: Asked,
)
    requires
        client.made_from(config),
        client.asks(quiz, outcome),
    ensures
        match outcome {
            Asked::Exchange(sent, exchange) => {
                &&& !(config.spoken() is Jev)
                &&& reads_for(config.spoken(), exchange@.adapter)
                &&& exchange@.api_key == config.api_key
                &&& exchange@.stage is Sent
                &&& exchange@.full_content == Seq::<char>::empty()
                &&& sent@.url == super::protocol::endpoint_of(
                    config.spoken(),
                    config.base_url,
                    config.model,
                )
                &&& user_text(config.spoken(), sent@.body) matches Some(text)
                    && question_with_options(quiz).is_suffix_of(text)
            },
            Asked::Jev(sent, exchange) => {
                &&& config.spoken() is Jev
                &&& quiz.options.len() > 0
                &&& exchange@.api_key == config.api_key
                &&& quiz.options.len() <= usize::MAX ==> exchange@.option_count
                    == quiz.options.len()
                &&& exchange@.attempt == 0
                &&& exchange@.stage is Sent
                &&& sent@.headers.contains(("Authorization"@, "Bearer "@ + config.api_key))
                &&& sent@.url == super::protocol::endpoint_of(
                    Protocol::Jev,
                    config.base_url,
                    config.model,
                )
                &&& sent@.body.get("model"@) == Some(JsonView::Text(config.model))
                &&& sent@.body.get2("state"@, "question"@) == Some(JsonView::Text(quiz.question))
                &&& sent@.body.get2("questions"@, "answer"@) matches Some(answer)
                    && numbers_options(answer.get("criteria"@), quiz.options)
            },
            Asked::Refused(chunks) => config.spoken() is Jev && quiz.options.len() == 0
                && chunks@.len() == 1 && chunks@[0]@ is Error,
        },
{
    match client {
        LlmClient::OpenAiChat(inner) => {
            law_chat_is_asked(inner, config, quiz);
            let prompt = choose|prompt: Seq<char>| #[trigger]
                has_user_message(inner.request(quiz).body, prompt) && is_whole_prompt(
                    prompt,
                    quiz,
                    config.enable_thinking,
                );
            lemma_whole_prompt_ends(prompt, quiz, config.enable_thinking);
        },
        LlmClient::OpenAiResponses(inner) => {
            law_responses_are_asked(inner, config, quiz);
            let prompt = inner.request(quiz).body.get("input"@)->0->Text_0;
            lemma_whole_prompt_ends(prompt, quiz, config.enable_thinking);
        },
        LlmClient::Claude(inner) => {
            law_anthropic_is_asked(inner, config, quiz);
            lemma_asked_ends(quiz, config.enable_thinking);
        },
        LlmClient::Gemini(inner) => {
            law_gemini_is_asked(inner, config, quiz);
            lemma_asked_ends(quiz, config.enable_thinking);
        },
        LlmClient::GeminiInteractions(inner) => {
            law_interactions_are_asked(inner, config, quiz);
            let prompt = inner.request(quiz).body.get("input"@)->0->Text_0;
            lemma_whole_prompt_ends(prompt, quiz, config.enable_thinking);
        },
        LlmClient::Jev(inner) => {
            law_jev_is_asked(inner, quiz.question, quiz.options, quiz.categories);
            let headers = inner.request(quiz.question, quiz.options, quiz.categories).headers;
            assert(headers[1] == ("Authorization"@, "Bearer "@ + config.api_key));
            if let Asked::Refused(chunks) = outcome {
                assert(super::chunk_views(chunks@).len() == 1);
                assert(super::chunk_views(chunks@)[0] == chunks@[0]@);
            }
        },
    }
}

proof fn lemma_asked_ends(quiz: QuizView, thinking: bool)
    ensures
        question_with_options(quiz).is_suffix_of(asked(quiz, thinking)),
{
    let text = asked(quiz, thinking);
    let end = question_with_options(quiz);
    assert(text.subrange(text.len() - end.len(), text.len() as int) =~= end);
}

proof fn lemma_whole_prompt_ends(prompt: Seq<char>, quiz: QuizView, thinking: bool)
    requires
        is_whole_prompt(prompt, quiz, thinking),
    ensures
        question_with_options(quiz).is_suffix_of(prompt),
{
    lemma_asked_ends(quiz, thinking);
    let end = question_with_options(quiz);
    let system = choose|system: Seq<char>| #[trigger]
        names_categories(system, quiz) && prompt == system + "\n---\n"@ + asked(quiz, thinking);
    let all = asked(quiz, thinking);
    assert(all.subrange(all.len() - end.len(), all.len() as int) =~= end);
    assert(prompt.subrange(prompt.len() - end.len(), prompt.len() as int) =~= end);
}

/// Settings that hold the endpoint itself are asked there, without the slashes at its end, for
/// their model and with their key, by Chat Completions and by JEV alike.
pub proof fn law_own_endpoints_are_asked(
    chat: OpenAiClient,
    jev: JevClient,
    config: OpenAiConfig,
    quiz: QuizView,
    endpoint: Seq<char>,
    slashes: Seq<char>,
)
    requires
        chat.made_from(config),
        jev.made_from(config),
        config.base_url@ == endpoint + slashes,
        endpoint.len() > 0 ==> endpoint.last() != '/',
        forall|i: int| 0 <= i < slashes.len() ==> #[trigger] slashes[i] == '/',
    ensures
        ({
            let sent = chat.request(quiz);
            &&& sent.url == endpoint
            &&& sent.headers[1] == ("Authorization"@, "Bearer "@ + config.api_key@)
            &&& sent.body.get("model"@) == Some(JsonView::Text(config.model@))
            &&& exists|prompt: Seq<char>| #[trigger]
                has_user_message(sent.body, prompt) && is_whole_prompt(
                    prompt,
                    quiz,
                    config.enable_thinking,
                )
            &&& tells_of_thinking(
                sent.body,
                sent.url,
                config.model@,
                config.enable_thinking,
                if config.reasoning_effort@.len() == 0 {
                    "high"@
                } else {
                    config.reasoning_effort@
                },
            )
        }),
        ({
            let sent = jev.request(quiz.question, quiz.options, quiz.categories);
            &&& sent.url == endpoint
            &&& sent.headers[1] == ("Authorization"@, "Bearer "@ + config.api_key@)
            &&& sent.body.get("model"@) == Some(JsonView::Text(config.model@))
        }),
{
    text::law_trailing_run(endpoint, '/', slashes);
    law_openai_is_asked(chat, quiz);
    law_jev_is_asked(jev, quiz.question, quiz.options, quiz.categories);
}

} // verus!
