//! What holds of every step in which an exchange follows a reply.
use super::exchange::{Adapter, EventView, ExchangeView, StageView, WantView};
use super::jev_exchange::{JevEventView, JevExchangeView, JevStageView, JevWant};
use super::providers::jev::ChoiceView;
use super::shared::payload::PayloadView;
use super::ChunkView;
use crate::json::{JsonView, NumberView};
use crate::text;
use vstd::prelude::*;
use vstd::string::*;

verus! {

broadcast use {vstd::seq_lib::group_seq_properties, vstd::string::group_string_axioms};

/// Whether a list of chunks is the thinking and then the answer, each where there is some.
pub open spec fn shows(
    chunks: Seq<ChunkView>,
    reasoning: Option<Seq<char>>,
    content: Option<Seq<char>>,
) -> bool {
    match (reasoning, content) {
        (Some(reasoning), Some(content)) => chunks == seq![
            ChunkView::Thinking(reasoning),
            ChunkView::Content(content),
        ],
        (Some(reasoning), None) => chunks == seq![ChunkView::Thinking(reasoning)],
        (None, Some(content)) => chunks == seq![ChunkView::Content(content)],
        (None, None) => chunks == Seq::<ChunkView>::empty(),
    }
}

proof fn lemma_shown(payload: PayloadView)
    ensures
        shows(
            super::shared::payload::reported(payload),
            payload.reasoning,
            payload.content,
        ),
{
    let chunks = super::shared::payload::reported(payload);
    match (payload.reasoning, payload.content) {
        (Some(reasoning), Some(content)) => {
            assert(chunks =~= seq![ChunkView::Thinking(reasoning), ChunkView::Content(content)]);
        },
        (Some(reasoning), None) => {
            assert(chunks =~= seq![ChunkView::Thinking(reasoning)]);
        },
        (None, Some(content)) => {
            assert(chunks =~= seq![ChunkView::Content(content)]);
        },
        (None, None) => {
            assert(chunks =~= Seq::<ChunkView>::empty());
        },
    }
}

/// Whether an exchange ended with this error and nothing else, the key and the URLs taken
/// out of it.
pub open spec fn ends_with_error(
    x: ExchangeView,
    after: ExchangeView,
    chunks: Seq<ChunkView>,
    message: Seq<char>,
) -> bool {
    &&& after.stage is Closed
    &&& chunks == seq![ChunkView::Error(super::shared::http::redacted(message, x.api_key))]
}

/// Whether two exchanges are of the same request.
pub open spec fn is_same(x: ExchangeView, after: ExchangeView) -> bool {
    after.adapter == x.adapter && after.api_key == x.api_key
}

/// What an event of a stream brings is reported at once and put behind the answer so far, and
/// the next event is waited for; an event that is not JSON or that brings an error ends the
/// exchange with an error.
#[verifier::rlimit(40)]
pub proof fn law_events_are_reported(x: ExchangeView, data: Seq<char>)
    requires
        x.stage is Events,
        !(x.adapter is GeminiInteractions),
        data != "[DONE]"@ || x.adapter is Claude || x.adapter is Gemini,
    ensures
        ({
            let (after, step) = x.step(EventView::Sse(data));
            let unanswered = x.full_content.len() == 0;
            &&& is_same(x, after)
            &&& match crate::json::json_of_text(data) {
                Ok(value) => match super::exchange::event_reply(x.adapter, value, unanswered) {
                    Ok(payload) => {
                        &&& after.stage is Events && step.want is Event
                        &&& shows(step.chunks, payload.reasoning, payload.content)
                        &&& payload.content matches Some(content) ==> after.full_content
                            == x.full_content + content
                        &&& payload.content is None ==> after.full_content == x.full_content
                    },
                    Err(message) => ends_with_error(x, after, step.chunks, message)
                        && step.want is Stop,
                },
                Err(error) => ends_with_error(
                    x,
                    after,
                    step.chunks,
                    "解析 "@ + super::exchange::label_of(x.adapter) + " SSE 事件 JSON 失败: "@ + error,
                ) && step.want is Stop,
            }
        }),
{
    let (after, step) = x.step(EventView::Sse(data));
    if let Ok(value) = crate::json::json_of_text(data) {
        if let Ok(payload) = super::exchange::event_reply(
            x.adapter,
            value,
            x.full_content.len() == 0,
        ) {
            assert(after.full_content =~= x.full_content + super::shared::payload::added(payload));
            lemma_shown(payload);
            if payload.content is None {
                assert(after.full_content =~= x.full_content);
            }
        }
    }
}

/// An event of Gemini Interactions holds all that came so far: nothing is reported yet, and
/// the last thinking and the last answer are kept.
pub proof fn law_interactions_are_kept(
    x: ExchangeView,
    data: Seq<char>,
    value: JsonView,
    payload: PayloadView,
)
    requires
        x.stage is Events,
        x.adapter is GeminiInteractions,
        crate::json::json_of_text(data) == Ok::<JsonView, Seq<char>>(value),
        super::exchange::event_reply(x.adapter, value, x.full_content.len() == 0) == Ok::<
            PayloadView,
            Seq<char>,
        >(payload),
    ensures
        ({
            let (after, step) = x.step(EventView::Sse(data));
            &&& is_same(x, after)
            &&& after.stage is Events && step.want is Event
            &&& step.chunks == Seq::<ChunkView>::empty()
            &&& payload.reasoning is Some ==> after.latest.reasoning == payload.reasoning
            &&& payload.reasoning is None ==> after.latest.reasoning == x.latest.reasoning
            &&& payload.content is Some ==> after.latest.content == payload.content
            &&& payload.content is None ==> after.latest.content == x.latest.content
        }),
{
}

/// A stream is over at its end, and at the mark of it for the protocols of OpenAI; nothing is
/// reported of that, and nothing of the answer is lost.
pub proof fn law_streams_end(x: ExchangeView)
    requires
        x.stage is Events,
    ensures
        ({
            let (after, step) = x.step(EventView::SseEnd);
            &&& after == (ExchangeView { stage: StageView::Settling, ..x })
            &&& step.want is Settle && step.chunks == Seq::<ChunkView>::empty()
        }),
        x.adapter is OpenAiChat || x.adapter is OpenAiResponses || x.adapter is OpenAi ==> x.step(
            EventView::Sse("[DONE]"@),
        ) == x.step(EventView::SseEnd),
{
}

/// When the reply is over, the answer so far is handed over as a whole; where it is blank,
/// the exchange ends with an error instead.
pub proof fn law_answer_is_handed_over(x: ExchangeView)
    requires
        x.stage is Settling,
    ensures
        ({
            let (after, step) = x.step(EventView::Settled);
            &&& after.stage is Closed && step.want is Stop
            &&& !(x.adapter is GeminiInteractions) && text::trim(x.full_content).len() > 0
                ==> step.chunks == seq![ChunkView::Done(x.full_content)]
            &&& !(x.adapter is GeminiInteractions) && text::trim(x.full_content).len() == 0
                ==> ends_with_error(
                x,
                after,
                step.chunks,
                super::exchange::label_of(x.adapter) + " 响应结束但未包含可用正文"@,
            )
            &&& x.adapter is GeminiInteractions && x.latest.content is Some ==> step.chunks.len()
                > 0 && step.chunks.last() == ChunkView::Done(x.latest.content->0) && shows(
                step.chunks.drop_last(),
                x.latest.reasoning,
                x.latest.content,
            )
            &&& x.adapter is GeminiInteractions && x.latest.content is None ==> ends_with_error(
                x,
                after,
                step.chunks,
                super::exchange::label_of(x.adapter) + " 响应结束但未包含可用正文"@,
            )
        }),
{
    let (after, step) = x.step(EventView::Settled);
    if x.adapter is GeminiInteractions && x.latest.content is Some {
        assert(step.chunks.drop_last() =~= super::shared::payload::reported(x.latest));
        lemma_shown(x.latest);
    }
}

/// A reply with a status of success is read on, as what its head says it is; any other is
/// refused, and the exchange ends with an error once its body is there.
pub proof fn law_status_decides(
    x: ExchangeView,
    code: u16,
    content_type: Option<Seq<char>>,
    content_encoding: Option<Seq<char>>,
    body: Seq<char>,
)
    requires
        x.stage is Sent,
    ensures
        ({
            let (after, step) = x.step(EventView::Head { code, content_type, content_encoding });
            &&& is_same(x, after) && after.full_content == x.full_content
            &&& step.chunks == Seq::<ChunkView>::empty()
            &&& 200 <= code < 300 ==> step.want is Chunk && (after.stage matches StageView::Body(
                reader,
            ) && reader.content_type == content_type && reader.content_encoding == content_encoding
                && reader.prefix == Seq::<u8>::empty() && reader.chunks == Seq::<
                Seq<u8>,
            >::empty() && reader.json is None)
            &&& !(200 <= code < 300) ==> step.want is ErrorBody && after.stage
                == StageView::Refused(code) && {
                let (end, last) = after.step(EventView::ErrorBody(body));
                end.stage is Closed && last.want is Stop && last.chunks.len() == 1
                    && last.chunks[0] is Error
            }
        }),
{
}

proof fn lemma_json_ends(
    reader: super::shared::body::ReaderView,
    bytes: Seq<u8>,
    label: Seq<char>,
    api_key: Seq<char>,
    max: usize,
)
    requires
        reader.json == Some(bytes),
    ensures
        reader.next(None, label, api_key, max).1 == super::shared::body::BodyStepView::Json(bytes),
{
}

#[verifier::spinoff_prover]
#[verifier::rlimit(40)]
proof fn lemma_read_as_whole(
    x: ExchangeView,
    reader: super::shared::body::ReaderView,
    bytes: Seq<u8>,
)
    requires
        x.stage == StageView::Body(reader),
        reader.json == Some(bytes),
    ensures
        x.step(EventView::Chunk(None)) == x.whole(bytes),
{
    lemma_json_ends(
        reader,
        bytes,
        super::exchange::label_of(x.adapter),
        x.api_key,
        super::exchange::limit_of(x.adapter),
    );
    assert(x.step(EventView::Chunk(None)) == x.read(reader, None));
}

/// Whether what an exchange reported and how it went on is what a whole reply brings.
pub open spec fn is_reported(
    x: ExchangeView,
    reply: Result<PayloadView, Seq<char>>,
    after: ExchangeView,
    chunks: Seq<ChunkView>,
) -> bool {
    &&& is_same(x, after)
    &&& match reply {
        Ok(payload) => {
            &&& after.stage is Settling
            &&& shows(chunks, payload.reasoning, payload.content)
            &&& payload.content matches Some(content) ==> after.full_content == x.full_content
                + content
            &&& payload.content is None ==> after.full_content == x.full_content
        },
        Err(message) => ends_with_error(x, after, chunks, message),
    }
}

proof fn lemma_whole_reported(x: ExchangeView, bytes: Seq<u8>, value: JsonView)
    requires
        !(x.adapter is GeminiInteractions),
        crate::json::json_of_bytes(bytes) == Ok::<JsonView, Seq<char>>(value),
    ensures
        is_reported(
            x,
            super::exchange::whole_reply(x.adapter, value),
            x.whole(bytes).0,
            x.whole(bytes).1.chunks,
        ),
{
    let (after, step) = x.whole(bytes);
    if let Ok(payload) = super::exchange::whole_reply(x.adapter, value) {
        assert(after.full_content =~= x.full_content + super::shared::payload::added(payload));
        lemma_shown(payload);
        if payload.content is None {
            assert(after.full_content =~= x.full_content);
        }
    }
}

/// At the end of a body that is JSON, what the whole of it brings is reported at once, and the
/// exchange settles; one that brings an error ends it with that.
pub proof fn law_whole_replies_are_reported(
    x: ExchangeView,
    reader: super::shared::body::ReaderView,
    bytes: Seq<u8>,
    value: JsonView,
)
    requires
        x.stage == StageView::Body(reader),
        !(x.adapter is GeminiInteractions),
        reader.json == Some(bytes),
        crate::json::json_of_bytes(bytes) == Ok::<JsonView, Seq<char>>(value),
    ensures
        is_reported(
            x,
            super::exchange::whole_reply(x.adapter, value),
            x.step(EventView::Chunk(None)).0,
            x.step(EventView::Chunk(None)).1.chunks,
        ),
{
    lemma_read_as_whole(x, reader, bytes);
    lemma_whole_reported(x, bytes, value);
}

/// A whole reply that is not JSON ends the exchange with an error that says why and what the
/// reply begins with.
pub proof fn law_unreadable_replies_are_told(
    x: ExchangeView,
    reader: super::shared::body::ReaderView,
    bytes: Seq<u8>,
    error: Seq<char>,
)
    requires
        x.stage == StageView::Body(reader),
        reader.json == Some(bytes),
        crate::json::json_of_bytes(bytes) == Err::<JsonView, Seq<char>>(error),
    ensures
        ({
            let (after, step) = x.step(EventView::Chunk(None));
            let message = "解析 "@ + super::exchange::label_of(x.adapter) + " JSON 响应失败: "@
                + error + "; 响应摘要: "@ + super::shared::http::preview(
                super::shared::stream::lossy(bytes),
                x.api_key,
                200,
            );
            ends_with_error(x, after, step.chunks, message) && step.want is Stop
        }),
{
    lemma_read_as_whole(x, reader, bytes);
}

/// A body that turns out to be a stream of events is read as one, from its first byte on.
#[verifier::rlimit(40)]
pub proof fn law_streams_are_read_from_the_start(
    x: ExchangeView,
    reader: super::shared::body::ReaderView,
    chunk: Option<Seq<u8>>,
    chunks: Seq<Seq<u8>>,
)
    requires
        x.stage == StageView::Body(reader),
        reader.next(
            chunk,
            super::exchange::label_of(x.adapter),
            x.api_key,
            super::exchange::limit_of(x.adapter),
        ).1 == super::shared::body::BodyStepView::Sse(chunks),
    ensures
        ({
            let (after, step) = x.step(EventView::Chunk(chunk));
            &&& after == (ExchangeView { stage: StageView::Events, ..x })
            &&& step.want == WantView::Events(chunks)
            &&& step.chunks == Seq::<ChunkView>::empty()
        }),
{
}

/// JSON replies of Anthropic and Gemini may be four mebibytes long, those of the protocols of
/// OpenAI eight.
pub proof fn law_reply_sizes(adapter: Adapter)
    ensures
        super::exchange::limit_of(adapter) == if adapter is Claude || adapter is Gemini
            || adapter is GeminiInteractions {
            4194304int
        } else {
            8388608int
        },
{
}

/// The probabilities that belong to an option: their keys, without the white space around
/// them, are its number, and their values are numbers.
pub open spec fn is_probability(entry: (Seq<char>, JsonView), option_count: usize) -> bool {
    &&& entry.1 is Number
    &&& exists|n: nat|
        1 <= n <= option_count && #[trigger] text::parse_unsigned(
            text::trim(entry.0),
            usize::MAX as nat,
        ) == Some(n)
}

/// The choice in a reply of JEV's is the number that the answer gives, between one and the
/// number of options, whatever else the reply holds. With it come the model that answered,
/// how sure it is and what the question cost.
pub proof fn law_jev_chooses_what_it_says(
    value: JsonView,
    answer: JsonView,
    raw: Seq<char>,
    n: nat,
    option_count: usize,
)
    requires
        value.get2("answers"@, "answer"@) == Some(answer),
        answer is Object,
        answer.get("type"@) matches Some(JsonView::Text(kind)) ==> kind == "choice"@,
        answer.get("choice"@) == Some(JsonView::Text(raw)),
        text::trim(raw) == text::decimal(n),
        n <= usize::MAX,
    ensures
        ({
            let r = super::providers::jev::choice_of(value, option_count);
            &&& 1 <= n <= option_count ==> {
                &&& r matches Ok(choice)
                &&& choice.index == n
                &&& choice.model == match value.get("model"@) {
                    Some(JsonView::Text(model)) => model,
                    _ => "unknown"@,
                }
                &&& choice.confidence == match answer.get("confidence"@) {
                    Some(JsonView::Number(number)) => Some(number),
                    _ => None,
                }
                &&& choice.input_tokens == match value.get2("usage"@, "input_tokens"@) {
                    Some(JsonView::Number(number)) => number.unsigned,
                    _ => None,
                }
            }
            &&& !(1 <= n <= option_count) ==> r is Err
        }),
{
    text::law_numbers_are_read(raw, n, usize::MAX as nat);
}

/// A reply of JEV's without an answer, with one of another type, without a choice or with one
/// that is no number is an error.
pub proof fn law_jev_needs_a_choice(value: JsonView, option_count: usize)
    requires
        match value.get2("answers"@, "answer"@) {
            Some(answer) => {
                ||| !(answer is Object)
                ||| answer.get("type"@) matches Some(JsonView::Text(kind)) && kind != "choice"@
                ||| match answer.get("choice"@) {
                    Some(JsonView::Text(raw)) => text::parse_unsigned(
                        text::trim(raw),
                        usize::MAX as nat,
                    ) is None,
                    _ => true,
                }
            },
            None => true,
        },
    ensures
        super::providers::jev::choice_of(value, option_count) is Err,
{
}

proof fn lemma_probabilities(entries: Seq<(Seq<char>, JsonView)>, option_count: usize)
    ensures
        ({
            let list = super::providers::jev::probabilities_in(entries, option_count);
            let kept = entries.filter(
                |entry: (Seq<char>, JsonView)| is_probability(entry, option_count),
            );
            &&& list.len() == kept.len()
            &&& forall|i: int|
                0 <= i < list.len() ==> kept[i].1 == JsonView::Number((#[trigger] list[i]).1)
                    && text::parse_unsigned(text::trim(kept[i].0), usize::MAX as nat) == Some(
                    list[i].0 as nat,
                )
        }),
    decreases entries.len(),
{
    reveal(Seq::filter);
    if entries.len() > 0 {
        lemma_probabilities(entries.drop_last(), option_count);
        let last = entries.last();
        let parsed = text::parse_unsigned(text::trim(last.0), usize::MAX as nat);
        if let Some(n) = parsed {
            assert(parsed == Some(n));
        }
        assert(is_probability(last, option_count) == (last.1 is Number
            && super::providers::jev::option_number(last.0, option_count) is Some));
    }
}

/// The probabilities that come with a choice are those of the answer that are numbers under
/// the number of an option, in their order and unchanged.
pub proof fn law_jev_keeps_the_probabilities(
    value: JsonView,
    answer: JsonView,
    entries: Seq<(Seq<char>, JsonView)>,
    option_count: usize,
)
    requires
        value.get2("answers"@, "answer"@) == Some(answer),
        answer.get("probabilities"@) == Some(JsonView::Object(entries)),
        super::providers::jev::choice_of(value, option_count) is Ok,
    ensures
        ({
            let list = super::providers::jev::choice_of(value, option_count)->Ok_0.probabilities;
            let kept = entries.filter(
                |entry: (Seq<char>, JsonView)| is_probability(entry, option_count),
            );
            &&& list.len() == kept.len()
            &&& forall|i: int|
                0 <= i < list.len() ==> kept[i].1 == JsonView::Number((#[trigger] list[i]).1)
                    && text::parse_unsigned(text::trim(kept[i].0), usize::MAX as nat) == Some(
                    list[i].0 as nat,
                )
        }),
{
    lemma_probabilities(entries, option_count);
}

/// The body of a reply of JEV's is put together from its chunks, up to one mebibyte, and read
/// as a whole at its end: the choice that it makes is the answer, by its number.
#[verifier::rlimit(40)]
pub proof fn law_jev_is_followed(
    x: JevExchangeView,
    bytes: Seq<u8>,
    chunk: Seq<u8>,
    value: JsonView,
    choice: ChoiceView,
)
    requires
        x.stage == JevStageView::Body(bytes),
    ensures
        ({
            let (after, step) = x.step(JevEventView::Chunk(Some(chunk)));
            &&& bytes.len() + chunk.len() <= 1048576 ==> after == (JevExchangeView {
                stage: JevStageView::Body(bytes + chunk),
                ..x
            }) && step.want is Chunk && step.chunks == Seq::<ChunkView>::empty()
            &&& bytes.len() + chunk.len() > 1048576 ==> after.stage is Closed && step.chunks.len()
                == 1 && step.chunks[0] is Error
        }),
        crate::json::json_of_bytes(bytes) == Ok::<JsonView, Seq<char>>(value)
            && super::providers::jev::choice_of(value, x.option_count) == Ok::<
            ChoiceView,
            Seq<char>,
        >(choice) ==> {
            let (after, step) = x.step(JevEventView::Chunk(None));
            let (end, last) = after.step(JevEventView::Settled);
            &&& step.want is Settle && step.chunks == Seq::<ChunkView>::empty()
            &&& end.stage is Closed && last.want is Stop
            &&& last.chunks.len() == 2 && last.chunks[0] is Thinking
            &&& last.chunks[1] == ChunkView::Done(text::decimal(choice.index as nat))
        },
        crate::json::json_of_bytes(bytes) == Ok::<JsonView, Seq<char>>(value)
            && super::providers::jev::choice_of(value, x.option_count) is Err ==> {
            let (after, step) = x.step(JevEventView::Chunk(None));
            after.stage is Closed && step.want is Stop && step.chunks == seq![
                ChunkView::Error(
                    super::shared::http::redacted(
                        super::providers::jev::choice_of(value, x.option_count)->Err_0,
                        x.api_key,
                    ),
                ),
            ]
        },
{
}

/// A refusal for overload is followed by another attempt, three times at most: after the
/// pause that the reply asks for, thirty seconds at most, or else after two, four and eight
/// seconds. Every other refusal, and the fourth for overload, is an error.
#[verifier::rlimit(40)]
pub proof fn law_jev_is_asked_again(
    x: JevExchangeView,
    code: u16,
    retry_after: Option<Seq<char>>,
    body: Seq<char>,
    seconds: nat,
)
    requires
        x.stage is Sent,
        !(200 <= code < 300),
        x.attempt <= 3,
        seconds <= u64::MAX,
        retry_after matches Some(asked) ==> text::trim(asked) == text::decimal(seconds),
    ensures
        ({
            let (refused, first) = x.step(JevEventView::Head { code, retry_after });
            let (after, step) = refused.step(JevEventView::ErrorBody(body));
            let (again, last) = after.step(JevEventView::Waited);
            &&& first.want is ErrorBody && first.chunks == Seq::<ChunkView>::empty()
            &&& (code == 429 || code == 529) && x.attempt < 3 ==> {
                &&& step.chunks == Seq::<ChunkView>::empty()
                &&& after.attempt == x.attempt + 1
                &&& again.stage is Sent && last.want is Reply
                &&& again.attempt == x.attempt + 1 && again.api_key == x.api_key
                    && again.option_count == x.option_count
                &&& retry_after is Some && seconds <= 30 ==> step.want == JevWant::Pause(
                    seconds as u64,
                )
                &&& retry_after is Some && seconds > 30 ==> step.want == JevWant::Pause(30)
                &&& retry_after is None && x.attempt == 0 ==> step.want == JevWant::Pause(2)
                &&& retry_after is None && x.attempt == 1 ==> step.want == JevWant::Pause(4)
                &&& retry_after is None && x.attempt == 2 ==> step.want == JevWant::Pause(8)
            }
            &&& !((code == 429 || code == 529) && x.attempt < 3) ==> after.stage is Closed
                && step.want is Stop && step.chunks.len() == 1 && step.chunks[0] is Error
        }),
{
    vstd::arithmetic::power2::lemma2_to64();
    if retry_after is Some {
        text::law_numbers_are_read(retry_after->0, seconds, u64::MAX as nat);
    }
}

/// What is reported of a choice names the model, how sure it is where it says so, and then
/// the probability of each option, if there are any.
pub proof fn law_jev_says_how_it_chose(choice: ChoiceView)
    ensures
        ({
            let sure = match choice.confidence {
                Some(number) => "置信度 "@ + number.places + "｜"@,
                None => Seq::<char>::empty(),
            };
            let start = "JEV "@ + choice.model + "｜"@ + sure;
            &&& start.is_prefix_of(choice.summary())
            &&& choice.probabilities.len() == 0 ==> choice.summary() == start
            &&& choice.probabilities.len() > 0 ==> exists|list: Seq<(usize, Seq<char>)>|
                #![trigger list.to_multiset()]
                {
                    &&& super::providers::jev::is_ordered(list)
                    &&& list.to_multiset() == choice.probabilities.map_values(
                        |entry: (usize, NumberView)| (entry.0, entry.1.places),
                    ).to_multiset()
                    &&& choice.summary() == start + "选项概率 "@ + text::join(
                        list.map_values(
                            |entry: (usize, Seq<char>)|
                                text::decimal(entry.0 as nat) + ":"@ + entry.1,
                        ),
                        " "@,
                    )
                }
        }),
{
    let sure = match choice.confidence {
        Some(number) => "置信度 "@ + number.places + "｜"@,
        None => Seq::<char>::empty(),
    };
    let start = "JEV "@ + choice.model + "｜"@ + sure;
    let summary = choice.summary();
    assert(start =~= summary.subrange(0, start.len() as int));
    if choice.probabilities.len() == 0 {
        assert(summary =~= start);
    } else {
        let shown = super::providers::jev::shown(choice.probabilities);
        let list = super::providers::jev::ordered(shown);
        super::providers::jev::law_ordered(shown);
        assert(shown =~= choice.probabilities.map_values(
            |entry: (usize, NumberView)| (entry.0, entry.1.places),
        ));
        assert(super::providers::jev::entry_texts(list) =~= list.map_values(
            |entry: (usize, Seq<char>)| text::decimal(entry.0 as nat) + ":"@ + entry.1,
        ));
        assert(summary =~= start + "选项概率 "@ + text::join(
            list.map_values(
                |entry: (usize, Seq<char>)| text::decimal(entry.0 as nat) + ":"@ + entry.1,
            ),
            " "@,
        ));
        assert(list.to_multiset() == shown.to_multiset());
    }
}

/// How the adapters are called in messages.
pub proof fn law_adapters_have_names(adapter: Adapter)
    ensures
        super::exchange::label_of(adapter) == match adapter {
            Adapter::OpenAiChat => "LLM"@,
            Adapter::OpenAi => "LLM"@,
            Adapter::OpenAiResponses => "OpenAI Responses"@,
            Adapter::Claude => "Anthropic"@,
            Adapter::Gemini => "Gemini"@,
            Adapter::GeminiInteractions => "Gemini Interactions"@,
        },
{
}

/// A failure of the transport, wherever it comes, ends the exchange with one error that says
/// what was being done and why it failed.
pub proof fn law_failures_end_the_exchange(
    x: ExchangeView,
    error: super::shared::http::TransportView,
)
    ensures
        ({
            let label = super::exchange::label_of(x.adapter);
            &&& x.stage is Sent ==> {
                let (after, step) = x.step(EventView::SendFailed(error));
                ends_with_error(
                    x,
                    after,
                    step.chunks,
                    super::shared::http::transport_text(label + " 请求失败"@, error, x.api_key),
                ) && step.want is Stop
            }
            &&& x.stage is Refused ==> {
                let (after, step) = x.step(EventView::ErrorBodyFailed(error));
                ends_with_error(
                    x,
                    after,
                    step.chunks,
                    super::shared::http::transport_text(
                        "读取 "@ + label + " 错误响应失败"@,
                        error,
                        x.api_key,
                    ),
                ) && step.want is Stop
            }
            &&& x.stage matches StageView::Body(reader) ==> {
                let (after, step) = x.step(EventView::ChunkFailed(error));
                ends_with_error(
                    x,
                    after,
                    step.chunks,
                    super::shared::http::transport_text(
                        if reader.json is Some {
                            "读取 "@ + label + " JSON 响应失败"@
                        } else {
                            "读取 "@ + label + " 响应失败"@
                        },
                        error,
                        x.api_key,
                    ),
                ) && step.want is Stop
            }
        }),
{
}

/// A refused request ends the exchange with what the service says of it.
pub proof fn law_refusals_end_the_exchange(x: ExchangeView, code: u16, body: Seq<char>)
    requires
        x.stage == StageView::Refused(code),
    ensures
        ({
            let (after, step) = x.step(EventView::ErrorBody(body));
            let label = super::exchange::label_of(x.adapter);
            let status = text::decimal(code as nat) + " "@ + super::shared::stream::status_reason(
                code,
            );
            ends_with_error(
                x,
                after,
                step.chunks,
                if x.adapter is OpenAi {
                    "LLM 请求失败 (HTTP "@ + status + "): "@ + super::shared::http::preview(
                        body,
                        x.api_key,
                        300,
                    )
                } else {
                    super::shared::stream::refusal_text(code, body, label, x.api_key)
                },
            ) && step.want is Stop
        }),
{
}

/// A reply of JEV's that is not JSON, and every failure of the transport, ends the exchange
/// with one error.
pub proof fn law_jev_failures_end_the_exchange(
    x: JevExchangeView,
    error: super::shared::http::TransportView,
)
    ensures
        x.stage is Body && crate::json::json_of_bytes(x.stage->Body_0) is Err ==> {
            let came = x.stage->Body_0;
            let (after, step) = x.step(JevEventView::Chunk(None));
            after.stage is Closed && step.want is Stop && step.chunks == seq![
                ChunkView::Error(
                    super::shared::http::redacted(
                        "解析 JEV JSON 响应失败: "@ + crate::json::json_of_bytes(came)->Err_0
                            + "; 响应摘要: "@ + super::shared::http::preview(
                            super::shared::stream::lossy(came),
                            x.api_key,
                            200,
                        ),
                        x.api_key,
                    ),
                ),
            ]
        },
        x.stage is Sent ==> {
            let (after, step) = x.step(JevEventView::SendFailed(error));
            after.stage is Closed && step.want is Stop && step.chunks == seq![
                ChunkView::Error(
                    super::shared::http::redacted(
                        super::shared::http::transport_text("JEV 请求失败"@, error, x.api_key),
                        x.api_key,
                    ),
                ),
            ]
        },
        x.stage is Body ==> {
            let (after, step) = x.step(JevEventView::ChunkFailed(error));
            after.stage is Closed && step.want is Stop && step.chunks == seq![
                ChunkView::Error(
                    super::shared::http::redacted(
                        super::shared::http::transport_text("读取 JEV 响应失败"@, error, x.api_key),
                        x.api_key,
                    ),
                ),
            ]
        },
{
}

/// A reply of JEV's with a status of success is read, from nothing on.
pub proof fn law_jev_replies_are_read(
    x: JevExchangeView,
    code: u16,
    retry_after: Option<Seq<char>>,
)
    requires
        x.stage is Sent,
        200 <= code < 300,
    ensures
        x.step(JevEventView::Head { code, retry_after }).0 == (JevExchangeView {
            stage: JevStageView::Body(Seq::<u8>::empty()),
            ..x
        }),
        x.step(JevEventView::Head { code, retry_after }).1.want is Chunk,
        x.step(JevEventView::Head { code, retry_after }).1.chunks == Seq::<ChunkView>::empty(),
{
}

/// A pause that is asked for in a form that is no number counts for none.
pub proof fn law_unreadable_pauses_count_for_none(
    x: JevExchangeView,
    code: u16,
    asked: Seq<char>,
)
    requires
        x.stage is Sent,
        !(200 <= code < 300),
        text::parse_unsigned(text::trim(asked), u64::MAX as nat) is None,
    ensures
        x.step(JevEventView::Head { code, retry_after: Some(asked) }) == x.step(
            JevEventView::Head { code, retry_after: None },
        ),
{
}

/// What is said of a request to JEV that was refused for good: the status, what it means, what
/// the body begins with, and how often it was asked again.
#[verifier::rlimit(40)]
pub proof fn law_jev_refusals_are_told(
    x: JevExchangeView,
    code: u16,
    asked: Option<u64>,
    body: Seq<char>,
)
    requires
        x.stage == JevStageView::Refused(code, asked),
        !((code == 429 || code == 529) && x.attempt < 3),
    ensures
        ({
            let hint = if code == 401 {
                "API Key 无效或缺失"@
            } else if code == 422 {
                "请求体未通过校验"@
            } else if code == 429 {
                "超出速率限制"@
            } else if code == 529 {
                "服务端过载"@
            } else {
                "未知错误"@
            };
            let start = "JEV 请求失败 (HTTP "@ + (text::decimal(code as nat) + " "@
                + super::shared::stream::status_reason(code)) + " "@ + hint + "): "@
                + super::shared::http::preview(body, x.api_key, 300);
            let message = if x.attempt == 0 {
                start
            } else {
                start + ("（已重试 "@ + text::decimal(x.attempt as nat) + " 次）"@)
            };
            x.step(JevEventView::ErrorBody(body)).1.chunks == seq![
                ChunkView::Error(super::shared::http::redacted(message, x.api_key)),
            ]
        }),
{
    let start = "JEV 请求失败 (HTTP "@ + super::shared::stream::status_line(code) + " "@
        + super::providers::jev::status_hint(code) + "): "@ + super::shared::http::preview(
        body,
        x.api_key,
        300,
    );
    assert(start + Seq::<char>::empty() =~= start);
}

/// A stream of events that breaks off ends the exchange with one error: of the transport by
/// its class, and of the events themselves as one of decoding.
pub proof fn law_broken_streams_end_the_exchange(
    x: ExchangeView,
    error: super::shared::stream::StreamErrorView,
)
    requires
        x.stage is Events,
        !(x.adapter is GeminiInteractions),
    ensures
        ({
            let (after, step) = x.step(EventView::SseFailed(error));
            let context = "读取 "@ + super::exchange::label_of(x.adapter) + " SSE 响应失败"@;
            &&& step.want is Stop
            &&& error.transport is Some ==> ends_with_error(
                x,
                after,
                step.chunks,
                super::shared::http::transport_text(context, error.transport->0, x.api_key),
            )
            &&& error.transport is None ==> ends_with_error(
                x,
                after,
                step.chunks,
                context + " [响应解码]: "@ + super::formats::chain_in_order(
                    error.messages,
                    x.api_key,
                ),
            )
        }),
{
    super::formats::lemma_chain(error.messages, x.api_key);
}

/// A stream of Gemini Interactions that breaks off ends the exchange with what the error says.
pub proof fn law_broken_interactions_end_the_exchange(
    x: ExchangeView,
    error: super::shared::stream::StreamErrorView,
)
    requires
        x.stage is Events,
        x.adapter is GeminiInteractions,
    ensures
        ({
            let (after, step) = x.step(EventView::SseFailed(error));
            &&& step.want is Stop
            &&& ends_with_error(
                x,
                after,
                step.chunks,
                "读取 "@ + "Gemini Interactions"@ + " SSE 响应失败: "@ + error.shown,
            )
        }),
{
}

} // verus!
