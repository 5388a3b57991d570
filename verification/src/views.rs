//! What is stated of a view is stated of the value: a view shows each part of it in its own
//! place.
use crate::config::{LlmConfig, PresetTemplate};
use crate::json::{Json, JsonView};
use crate::llm::exchange::{Event, EventView, Exchange, Stage, StageView, Step, Want, WantView};
use crate::llm::jev_exchange::{JevEvent, JevEventView, JevExchange, JevStage, JevStageView};
use crate::llm::models::{FetchStep, FetchStepView, ModelEntry, ModelFetch};
use crate::llm::providers::jev::JevChoice;
use crate::llm::request::{HttpRequest, QuizRequest};
use crate::llm::shared::body::BodyReader;
use crate::llm::shared::http::TransportError;
use crate::llm::shared::payload::ParsedPayload;
use crate::llm::shared::stream::StreamError;
use crate::llm::{ChunkView, LlmChunk};
use crate::state::{
    Action, ActionView, App, CaptchaPreserve, CaptchaState, Category, PhaseView, QuizPhase,
};
use vstd::prelude::*;
use vstd::string::*;

verus! {

broadcast use {vstd::seq_lib::group_seq_properties, vstd::string::group_string_axioms};

/// Whether texts are those of a list of strings, in their order.
pub open spec fn are_texts(texts: Seq<Seq<char>>, list: Seq<String>) -> bool {
    &&& texts.len() == list.len()
    &&& forall|i: int| 0 <= i < list.len() ==> #[trigger] texts[i] == list[i]@
}

/// Whether an optional text is that of an optional string.
pub open spec fn is_text(text: Option<Seq<char>>, string: Option<String>) -> bool {
    match string {
        Some(string) => text == Some(string@),
        None => text is None,
    }
}

/// A question shows its own text, its options and its categories, in their order.
pub proof fn law_quiz_is_shown(quiz: QuizRequest)
    ensures
        quiz@.question == quiz.question@,
        are_texts(quiz@.options, quiz.options@),
        are_texts(quiz@.categories, quiz.categories@),
{
}

/// A request shows its address, its headers in their order and its body.
pub proof fn law_request_is_shown(request: HttpRequest)
    ensures
        request@.url == request.url@,
        request@.headers.len() == request.headers@.len(),
        forall|i: int|
            0 <= i < request.headers@.len() ==> #[trigger] request@.headers[i] == (
                request.headers@[i].0@,
                request.headers@[i].1@,
            ),
        request@.body == request.body@,
{
}

/// A JSON value shows its own kind and what it holds, the items of a list and the entries of
/// an object in their order.
pub proof fn law_json_is_shown(json: Json)
    ensures
        match json {
            Json::Null => json@ == JsonView::Null,
            Json::Bool(flag) => json@ == JsonView::Bool(flag),
            Json::Number(number) => json@ matches JsonView::Number(shown) && shown.unsigned
                == number.unsigned && shown.decimal == number.decimal@ && shown.places
                == number.places@,
            Json::Text(text) => json@ == JsonView::Text(text@),
            Json::Array(items) => json@ matches JsonView::Array(shown) && shown.len() == items@.len()
                && forall|i: int| 0 <= i < items@.len() ==> #[trigger] shown[i] == items@[i]@,
            Json::Object(entries) => json@ matches JsonView::Object(shown) && shown.len()
                == entries@.len() && forall|i: int|
                0 <= i < entries@.len() ==> #[trigger] shown[i] == (
                    entries@[i].0@,
                    entries@[i].1@,
                ),
        },
{
}

/// Settings show each field under its own name.
pub proof fn law_settings_are_shown(config: LlmConfig)
    ensures
        config@.base_url == config.base_url@,
        config@.model == config.model@,
        config@.api_key == config.api_key@,
        config@.protocol == config.protocol,
        config@.enable_thinking == config.enable_thinking,
        config@.reasoning_effort == config.reasoning_effort@,
        config@.enable_fast_mode == config.enable_fast_mode,
{
}

/// A preset shows its protocol, its name, its address and its model.
pub proof fn law_preset_is_shown(preset: PresetTemplate)
    ensures
        preset@.protocol == preset.protocol,
        preset@.provider_name == preset.provider_name@,
        preset@.base_url == preset.config.base_url@,
        preset@.model == preset.config.model@,
{
}

/// A model shows its name, the name to show and its description.
pub proof fn law_model_is_shown(model: ModelEntry)
    ensures
        model@.id == model.id@,
        model@.label == model.label@,
        is_text(model@.detail, model.detail),
{
}

/// A fetch shows where it stands and what it listed, in its order.
pub proof fn law_fetch_is_shown(fetch: ModelFetch)
    ensures
        fetch@.protocol == fetch.protocol,
        fetch@.base_url == fetch.base_url@,
        fetch@.api_key == fetch.api_key@,
        fetch@.url == fetch.url@,
        fetch@.pages == fetch.pages,
        fetch@.models.len() == fetch.models@.len(),
        forall|i: int|
            0 <= i < fetch.models@.len() ==> #[trigger] fetch@.models[i] == fetch.models@[i]@,
{
}

/// What comes of a page shows itself.
pub proof fn law_fetch_step_is_shown(step: FetchStep)
    ensures
        match step {
            FetchStep::More => step@ is More,
            FetchStep::Done(list) => step@ matches FetchStepView::Done(models, truncated)
                && truncated == list.truncated && models.len() == list.models@.len() && forall|
                i: int,
            |
                0 <= i < list.models@.len() ==> #[trigger] models[i] == list.models@[i]@,
            FetchStep::Failed(message) => step@ == FetchStepView::Failed(message@),
        },
{
}

/// The page of a captcha shows each field under its own name, the categories in their order.
pub proof fn law_captcha_is_shown(captcha: CaptchaState, kept: CaptchaPreserve, category: Category)
    ensures
        captcha@.captcha_url == captcha.captcha_url@,
        captcha@.captcha_token == captcha.captcha_token@,
        captcha@.categories.len() == captcha.categories@.len(),
        forall|i: int|
            0 <= i < captcha.categories@.len() ==> #[trigger] captcha@.categories[i]
                == captcha.categories@[i]@,
        captcha@.cat_focus == captcha.cat_focus,
        captcha@.focus == captcha.focus,
        captcha@.input == captcha.input@,
        captcha@.error == captcha.error@,
        kept@.selected == kept.selected@,
        kept@.cat_focus == kept.cat_focus,
        kept@.focus == kept.focus,
        kept@.input == kept.input@,
        category@.id == category.id,
        category@.name == category.name@,
        category@.selected == category.selected,
{
}

/// The state of the quiz shows itself.
pub proof fn law_phase_is_shown(phase: QuizPhase)
    ensures
        match phase {
            QuizPhase::NotConfigured => phase@ is NotConfigured,
            QuizPhase::LoginTimeout { retry } => phase@ == (PhaseView::LoginTimeout { retry }),
            QuizPhase::WaitingScan { url } => phase@ == (PhaseView::WaitingScan { url: url@ }),
            QuizPhase::Captcha(captcha) => phase@ == PhaseView::Captcha(captcha@),
            QuizPhase::FetchingQuestion => phase@ is FetchingQuestion,
            QuizPhase::Running => phase@ is Running,
            QuizPhase::Finished => phase@ is Finished,
            QuizPhase::Error(message) => phase@ == PhaseView::Error(message@),
        },
{
}

/// What is on the screen shows each field under its own name.
pub proof fn law_screen_is_shown(app: App)
    ensures
        app@.page == app.page,
        app@.home_sel == app.home_sel,
        app@.quit == app.quit,
        app.config matches Some(config) ==> app@.config == Some(config@),
        app.config is None ==> app@.config is None,
        are_texts(app@.cfg_fields, app.cfg_fields@),
        app@.cfg_cursors == app.cfg_cursors@,
        app@.cfg_focus == app.cfg_focus,
        app@.cfg_protocol == app.cfg_protocol,
        app@.cfg_thinking == app.cfg_thinking,
        app@.cfg_effort == app.cfg_effort,
        app@.cfg_fast_mode == app.cfg_fast_mode,
        app@.cfg_preset_open == app.cfg_preset_open,
        app@.cfg_preset_sel == app.cfg_preset_sel,
        app@.config_confirm_reset == app.config_confirm_reset,
        app@.config_reset_choice == app.config_reset_choice,
        app@.model_picker_open == app.model_picker_open,
        app@.models.len() == app.models@.len(),
        forall|i: int| 0 <= i < app.models@.len() ==> #[trigger] app@.models[i] == app.models@[i]@,
        app@.model_filter == app.model_filter@,
        app@.model_cursor == app.model_cursor,
        app@.phase == app.phase@,
        app@.history_scroll == app.history_scroll,
        app.captcha_preserve matches Some(kept) ==> app@.captcha_preserve == Some(kept@),
        app.captcha_preserve is None ==> app@.captcha_preserve is None,
        are_texts(app@.selected_categories, app.selected_categories@),
{
}

/// An action shows itself.
pub proof fn law_action_is_shown(action: Action)
    ensures
        match action {
            Action::Go(page) => action@ == ActionView::Go(page),
            Action::Back => action@ is Back,
            Action::ForgetPhase => action@ is ForgetPhase,
            Action::Login => action@ is Login,
            Action::LoginOnQuiz => action@ is LoginOnQuiz,
            Action::FetchModels => action@ is FetchModels,
            Action::FetchCaptcha => action@ is FetchCaptcha,
            Action::SubmitCaptcha { input, token, ids } => action@ == (ActionView::SubmitCaptcha {
                input: input@,
                token: token@,
                ids: ids@,
            }),
            Action::SaveConfig => action@ is SaveConfig,
            Action::SaveCategories => action@ is SaveCategories,
            Action::Logout => action@ is Logout,
            Action::ResetAll => action@ is ResetAll,
            Action::OpenBrowser(url) => action@ == ActionView::OpenBrowser(url@),
        },
{
}

/// A chunk and a payload show themselves.
pub proof fn law_report_is_shown(chunk: LlmChunk, payload: ParsedPayload)
    ensures
        match chunk {
            LlmChunk::Thinking(text) => chunk@ == ChunkView::Thinking(text@),
            LlmChunk::Content(text) => chunk@ == ChunkView::Content(text@),
            LlmChunk::Done(text) => chunk@ == ChunkView::Done(text@),
            LlmChunk::Error(text) => chunk@ == ChunkView::Error(text@),
        },
        is_text(payload@.reasoning, payload.reasoning),
        is_text(payload@.content, payload.content),
{
}

/// A failure shows its messages in their order.
pub proof fn law_failure_is_shown(error: TransportError, stream: StreamError)
    ensures
        are_texts(error@.messages, error.messages@),
        stream@.shown == stream.shown@,
        stream.transport matches Some(inner) ==> stream@.transport == Some(inner@),
        stream.transport is None ==> stream@.transport is None,
        are_texts(stream@.messages, stream.messages@),
{
}

/// An exchange, its stage and the reader of its body show each field under its own name.
pub proof fn law_exchange_is_shown(x: Exchange, stage: Stage, reader: BodyReader)
    ensures
        x@.adapter == x.adapter,
        x@.api_key == x.api_key@,
        x@.stage == x.stage@,
        x@.full_content == x.full_content@,
        x@.latest == x.latest@,
        match stage {
            Stage::Sent => stage@ is Sent,
            Stage::Refused(code) => stage@ == StageView::Refused(code),
            Stage::Body(inner) => stage@ == StageView::Body(inner@),
            Stage::Events => stage@ is Events,
            Stage::Settling => stage@ is Settling,
            Stage::Closed => stage@ is Closed,
        },
        is_text(reader@.content_type, reader.content_type),
        is_text(reader@.content_encoding, reader.content_encoding),
        reader@.prefix == reader.prefix@,
        reader@.chunks.len() == reader.chunks@.len(),
        reader.json matches Some(bytes) ==> reader@.json == Some(bytes@),
        reader.json is None ==> reader@.json is None,
{
}

/// What happens to an exchange, and what it waits for, show themselves.
pub proof fn law_event_is_shown(event: Event, want: Want, step: Step)
    ensures
        match event {
            Event::Cancelled => event@ is Cancelled,
            Event::SendFailed(error) => event@ == EventView::SendFailed(error@),
            Event::Head { code, content_type, content_encoding } => event@ matches EventView::Head {
                code: shown,
                content_type: named,
                content_encoding: coded,
            } && shown == code && is_text(named, content_type) && is_text(coded, content_encoding),
            Event::ErrorBody(body) => event@ == EventView::ErrorBody(body@),
            Event::ErrorBodyFailed(error) => event@ == EventView::ErrorBodyFailed(error@),
            Event::Chunk(chunk) => event@ is Chunk && (event@->Chunk_0 is Some) == (chunk is Some),
            Event::ChunkFailed(error) => event@ == EventView::ChunkFailed(error@),
            Event::Sse(data) => event@ == EventView::Sse(data@),
            Event::SseFailed(error) => event@ == EventView::SseFailed(error@),
            Event::SseEnd => event@ is SseEnd,
            Event::Settled => event@ is Settled,
        },
        match want {
            Want::ErrorBody => want@ is ErrorBody,
            Want::Chunk => want@ is Chunk,
            Want::Events(chunks) => want@ matches WantView::Events(shown) && shown.len()
                == chunks@.len(),
            Want::Event => want@ is Event,
            Want::Settle => want@ is Settle,
            Want::Stop => want@ is Stop,
        },
        step@.want == step.want@,
        step@.chunks.len() == step.chunks@.len(),
        forall|i: int|
            0 <= i < step.chunks@.len() ==> #[trigger] step@.chunks[i] == step.chunks@[i]@,
{
}

/// An exchange with JEV, its stage, what happens to it and its choice show themselves.
pub proof fn law_jev_is_shown(x: JevExchange, stage: JevStage, event: JevEvent, choice: JevChoice)
    ensures
        x@.api_key == x.api_key@,
        x@.option_count == x.option_count,
        x@.attempt == x.attempt,
        x@.stage == x.stage@,
        match stage {
            JevStage::Sent => stage@ is Sent,
            JevStage::Body(bytes) => stage@ == JevStageView::Body(bytes@),
            JevStage::Refused(code, seconds) => stage@ == JevStageView::Refused(code, seconds),
            JevStage::Waiting => stage@ is Waiting,
            JevStage::Settling(made) => stage@ == JevStageView::Settling(made@),
            JevStage::Closed => stage@ is Closed,
        },
        match event {
            JevEvent::Cancelled => event@ is Cancelled,
            JevEvent::SendFailed(error) => event@ == JevEventView::SendFailed(error@),
            JevEvent::Head { code, retry_after } => event@ matches JevEventView::Head {
                code: shown,
                retry_after: asked,
            } && shown == code && is_text(asked, retry_after),
            JevEvent::Chunk(chunk) => event@ is Chunk && (event@->Chunk_0 is Some) == (
            chunk is Some),
            JevEvent::ChunkFailed(error) => event@ == JevEventView::ChunkFailed(error@),
            JevEvent::ErrorBody(body) => event@ == JevEventView::ErrorBody(body@),
            JevEvent::ErrorBodyFailed(error) => event@ == JevEventView::ErrorBodyFailed(error@),
            JevEvent::Waited => event@ is Waited,
            JevEvent::Settled => event@ is Settled,
        },
        choice@.index == choice.index,
        choice@.model == choice.model@,
        choice.confidence matches Some(number) ==> choice@.confidence == Some(number@),
        choice.confidence is None ==> choice@.confidence is None,
        choice@.probabilities.len() == choice.probabilities@.len(),
        forall|i: int|
            0 <= i < choice.probabilities@.len() ==> #[trigger] choice@.probabilities[i] == (
                choice.probabilities@[i].0,
                choice.probabilities@[i].1@,
            ),
        choice@.input_tokens == choice.input_tokens,
{
}

} // verus!
