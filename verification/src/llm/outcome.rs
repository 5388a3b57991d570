//! What holds of every exchange, from its request to its end.
use super::exchange::{Adapter, EventView, ExchangeView, StageView, WantView};
use super::shared::body::{BodyStepView, ReaderView};
use super::shared::payload::PayloadView;
use super::ChunkView;
use crate::text;
use vstd::prelude::*;

verus! {

broadcast use {vstd::seq_lib::group_seq_properties, vstd::string::group_string_axioms};

/// Whether a chunk is the outcome of an exchange.
pub open spec fn is_outcome(chunk: ChunkView) -> bool {
    chunk is Done || chunk is Error
}

/// The pieces of the answer among the chunks, one behind the other.
pub open spec fn content_of(chunks: Seq<ChunkView>) -> Seq<char>
    decreases chunks.len(),
{
    if chunks.len() == 0 {
        seq![]
    } else {
        content_of(chunks.drop_last()) + match chunks.last() {
            ChunkView::Content(content) => content,
            _ => seq![],
        }
    }
}

/// What comes of one event.
#[verifier::opaque]
pub open spec fn stepped(x: ExchangeView, event: EventView) -> (ExchangeView, Seq<ChunkView>) {
    (x.step(event).0, x.step(event).1.chunks)
}

/// Where an exchange stands after the events, and all that it reported on the way.
pub open spec fn run(x: ExchangeView, events: Seq<EventView>) -> (ExchangeView, Seq<ChunkView>)
    decreases events.len(),
{
    if events.len() == 0 {
        (x, seq![])
    } else {
        let (before, chunks) = run(x, events.drop_last());
        let (after, more) = stepped(before, events.last());
        (after, chunks + more)
    }
}

/// Whether each event can happen where the exchange stands when it does.
pub open spec fn possible(x: ExchangeView, events: Seq<EventView>) -> bool
    decreases events.len(),
{
    events.len() == 0 || (possible(x, events.drop_last()) && run(x, events.drop_last()).0.expects(
        events.last(),
    ))
}

/// Whether an exchange is well-formed, and an answer that it keeps whole is not blank.
pub open spec fn holds(x: ExchangeView) -> bool {
    &&& x.wf()
    &&& x.latest.content matches Some(content) ==> text::trim(content).len() > 0
}

proof fn lemma_content_of_concat(a: Seq<ChunkView>, b: Seq<ChunkView>)
    ensures
        content_of(a + b) == content_of(a) + content_of(b),
    decreases b.len(),
{
    if b.len() == 0 {
        assert(a + b =~= a);
    } else {
        assert((a + b).drop_last() =~= a + b.drop_last());
        lemma_content_of_concat(a, b.drop_last());
    }
}

/// What is reported of a payload adds to the answer what the payload brings.
proof fn lemma_reported(payload: PayloadView)
    ensures
        content_of(super::shared::payload::reported(payload)) == super::shared::payload::added(
            payload,
        ),
        forall|i: int|
            0 <= i < super::shared::payload::reported(payload).len() ==> !is_outcome(
                #[trigger] super::shared::payload::reported(payload)[i],
            ),
{
    let thoughts: Seq<ChunkView> = match payload.reasoning {
        Some(reasoning) => seq![ChunkView::Thinking(reasoning)],
        None => seq![],
    };
    let answers: Seq<ChunkView> = match payload.content {
        Some(content) => seq![ChunkView::Content(content)],
        None => seq![],
    };
    reveal_with_fuel(content_of, 2);
    lemma_content_of_concat(thoughts, answers);
    assert(thoughts + answers =~= super::shared::payload::reported(payload));
    if payload.reasoning is Some {
        assert(thoughts.drop_last() =~= seq![]);
    }
    if payload.content is Some {
        assert(answers.drop_last() =~= seq![]);
    }
    assert(content_of(thoughts) =~= seq![]);
    assert(content_of(answers) =~= super::shared::payload::added(payload));
}

/// What a step that leads from one exchange to another may report. As long as the exchange
/// goes on there is no outcome; when it ends, the last chunk is the outcome. The answer that
/// is kept grows by what is reported, and the one that is done with is the one reported.
spec fn sound(x: ExchangeView, after: ExchangeView, chunks: Seq<ChunkView>) -> bool {
    &&& after.adapter == x.adapter
    &&& after.api_key == x.api_key
    &&& holds(after)
    &&& forall|i: int| 0 <= i < chunks.len() - 1 ==> !is_outcome(#[trigger] chunks[i])
    &&& after.stage is Closed <==> chunks.len() > 0 && is_outcome(chunks.last())
    &&& !(x.adapter is GeminiInteractions) ==> {
        &&& after.full_content == x.full_content + content_of(chunks)
        &&& chunks.len() > 0 && chunks.last() is Done ==> chunks.last() == ChunkView::Done(
            after.full_content,
        ) && text::trim(after.full_content).len() > 0
    }
    &&& x.adapter is GeminiInteractions ==> {
        &&& !(after.stage is Closed) ==> content_of(chunks).len() == 0
        &&& chunks.len() > 0 && chunks.last() is Done ==> chunks.last() == ChunkView::Done(
            content_of(chunks),
        ) && text::trim(content_of(chunks)).len() > 0
    }
    &&& forall|i: int| 0 <= i < chunks.len() ==> #[trigger] shows_no_secret(chunks[i], x.api_key)
}

/// Whether a chunk, if it is an error, shows neither a URL nor the key.
pub open spec fn shows_no_secret(chunk: ChunkView, api_key: Seq<char>) -> bool {
    chunk matches ChunkView::Error(message) ==> {
        &&& !text::contains(message, "http://"@)
        &&& !text::contains(message, "https://"@)
        &&& api_key.len() > 0 && super::shared::http::clear_of(api_key, "[REDACTED]"@)
            && super::shared::http::clear_of(api_key, "[URL REDACTED]"@) ==> !text::contains(
            message,
            api_key,
        )
    }
}

proof fn lemma_failing(x: ExchangeView, message: Seq<char>)
    requires
        holds(x),
    ensures
        sound(x, x.failing(message).0, x.failing(message).1.chunks),
{
    let chunks = x.failing(message).1.chunks;
    reveal_with_fuel(content_of, 2);
    assert(chunks.drop_last() =~= seq![]);
    assert(content_of(chunks) =~= seq![]);
    assert(x.full_content + content_of(chunks) =~= x.full_content);
    super::shared::http::law_redacted_holds_no_url(message, x.api_key);
    if x.api_key.len() > 0 && super::shared::http::clear_of(x.api_key, "[REDACTED]"@)
        && super::shared::http::clear_of(x.api_key, "[URL REDACTED]"@) {
        super::shared::http::law_redacted_holds_no_key(message, x.api_key);
    }
    assert(shows_no_secret(chunks[0], x.api_key));
}

proof fn lemma_going(x: ExchangeView, stage: StageView, want: WantView)
    requires
        holds(x),
        stage !is Closed,
        stage matches StageView::Body(reader) ==> reader.wf(),
    ensures
        sound(x, x.going(stage, want).0, x.going(stage, want).1.chunks),
{
    let chunks = x.going(stage, want).1.chunks;
    assert(x.full_content + content_of(chunks) =~= x.full_content);
}

proof fn lemma_taking(x: ExchangeView, payload: PayloadView, stage: StageView, want: WantView)
    requires
        holds(x),
        stage !is Closed,
        stage !is Body,
        x.adapter is GeminiInteractions ==> (payload.content matches Some(content) ==> text::trim(
            content,
        ).len() > 0),
    ensures
        sound(x, x.taking(payload, stage, want).0, x.taking(payload, stage, want).1.chunks),
{
    lemma_reported(payload);
}

proof fn lemma_settled(x: ExchangeView)
    requires
        holds(x),
    ensures
        sound(x, x.settled().0, x.settled().1.chunks),
{
    let chunks = x.settled().1.chunks;
    lemma_failing(x, super::exchange::unanswered_text(x.adapter));
    reveal_with_fuel(content_of, 2);
    if x.adapter is GeminiInteractions {
        lemma_reported(x.latest);
        if x.latest.content is Some {
            assert(chunks.drop_last() =~= super::shared::payload::reported(x.latest));
            assert(content_of(chunks) =~= x.latest.content->0);
        }
    } else if text::trim(x.full_content).len() > 0 {
        assert(chunks.drop_last() =~= seq![]);
        assert(content_of(chunks) =~= seq![]);
        assert(x.full_content + content_of(chunks) =~= x.full_content);
    }
}

proof fn lemma_whole(x: ExchangeView, bytes: Seq<u8>)
    requires
        holds(x),
    ensures
        sound(x, x.whole(bytes).0, x.whole(bytes).1.chunks),
{
    match crate::json::json_of_bytes(bytes) {
        Ok(value) => match super::exchange::whole_reply(x.adapter, value) {
            Ok(payload) => {
                lemma_taking(x, payload, StageView::Settling, WantView::Settle);
            },
            Err(message) => {
                lemma_failing(x, message);
            },
        },
        Err(error) => {
            lemma_failing(
                x,
                "解析 "@ + super::exchange::label_of(x.adapter) + " JSON 响应失败: "@ + error
                    + "; 响应摘要: "@ + super::shared::http::preview(
                    super::shared::stream::lossy(bytes),
                    x.api_key,
                    200,
                ),
            );
        },
    }
}

proof fn lemma_event(x: ExchangeView, data: Seq<char>)
    requires
        holds(x),
    ensures
        sound(x, x.event(data).0, x.event(data).1.chunks),
{
    lemma_going(x, StageView::Settling, WantView::Settle);
    match crate::json::json_of_text(data) {
        Ok(value) => match super::exchange::event_reply(
            x.adapter,
            value,
            x.full_content.len() == 0,
        ) {
            Ok(payload) => {
                lemma_taking(x, payload, StageView::Events, WantView::Event);
            },
            Err(message) => {
                lemma_failing(x, message);
            },
        },
        Err(error) => {
            lemma_failing(
                x,
                "解析 "@ + super::exchange::label_of(x.adapter) + " SSE 事件 JSON 失败: "@ + error,
            );
        },
    }
}

proof fn lemma_read(x: ExchangeView, reader: ReaderView, chunk: Option<Seq<u8>>)
    requires
        holds(x),
        reader.wf(),
    ensures
        sound(x, x.read(reader, chunk).0, x.read(reader, chunk).1.chunks),
{
    let (after, step) = reader.next(
        chunk,
        super::exchange::label_of(x.adapter),
        x.api_key,
        super::exchange::limit_of(x.adapter),
    );
    match step {
        BodyStepView::More => {
            assert(after.wf());
            lemma_going(x, StageView::Body(after), WantView::Chunk);
        },
        BodyStepView::Sse(chunks) => {
            lemma_going(x, StageView::Events, WantView::Events(chunks));
        },
        BodyStepView::Json(bytes) => {
            lemma_whole(x, bytes);
        },
        BodyStepView::Failed(message) => {
            lemma_failing(x, message);
        },
    }
}

#[verifier::spinoff_prover]
proof fn lemma_step(x: ExchangeView, event: EventView)
    requires
        holds(x),
        x.expects(event),
        event !is Cancelled,
    ensures
        sound(x, stepped(x, event).0, stepped(x, event).1),
{
    reveal(stepped);
    let label = super::exchange::label_of(x.adapter);
    match event {
        EventView::Cancelled => {},
        EventView::SendFailed(error) => {
            lemma_failing(
                x,
                super::shared::http::transport_text(label + " 请求失败"@, error, x.api_key),
            );
        },
        EventView::Head { code, content_type, content_encoding } => {
            let reader = ReaderView {
                content_type,
                content_encoding,
                prefix: seq![],
                chunks: seq![],
                json: None,
            };
            assert(reader.chunks.flatten() =~= seq![]);
            lemma_going(x, StageView::Body(reader), WantView::Chunk);
            lemma_going(x, StageView::Refused(code), WantView::ErrorBody);
        },
        EventView::ErrorBody(body) => {
            lemma_failing(
                x,
                super::exchange::refusal_of(x.adapter, x.stage->Refused_0, body, x.api_key),
            );
        },
        EventView::ErrorBodyFailed(error) => {
            lemma_failing(
                x,
                super::shared::http::transport_text(
                    "读取 "@ + label + " 错误响应失败"@,
                    error,
                    x.api_key,
                ),
            );
        },
        EventView::Chunk(chunk) => {
            lemma_read(x, x.stage->Body_0, chunk);
        },
        EventView::ChunkFailed(error) => {
            lemma_failing(x, x.stage->Body_0.read_failure(error, label, x.api_key));
        },
        EventView::Sse(data) => {
            lemma_event(x, data);
        },
        EventView::SseFailed(error) => {
            lemma_failing(x, x.stream_failure(error));
        },
        EventView::SseEnd => {
            lemma_going(x, StageView::Settling, WantView::Settle);
        },
        EventView::Settled => {
            lemma_settled(x);
        },
    }
}

/// What has been reported up to here fits the exchange.
spec fn fits(x: ExchangeView, chunks: Seq<ChunkView>, called_off: bool) -> bool {
    &&& holds(x)
    &&& forall|i: int| 0 <= i < chunks.len() - 1 ==> !is_outcome(#[trigger] chunks[i])
    &&& x.stage !is Closed ==> !called_off && (chunks.len() > 0 ==> !is_outcome(chunks.last()))
    &&& x.stage is Closed && !called_off ==> chunks.len() > 0 && is_outcome(chunks.last())
    &&& called_off ==> x.stage is Closed && (chunks.len() > 0 ==> !is_outcome(chunks.last()))
    &&& x.adapter !is GeminiInteractions ==> content_of(chunks) == x.full_content
    &&& x.adapter is GeminiInteractions && x.stage !is Closed ==> content_of(chunks).len() == 0
    &&& chunks.len() > 0 && chunks.last() is Done ==> chunks.last() == ChunkView::Done(
        content_of(chunks),
    ) && text::trim(content_of(chunks)).len() > 0
    &&& forall|i: int| 0 <= i < chunks.len() ==> #[trigger] shows_no_secret(chunks[i], x.api_key)
}

/// Whether the last event called the task off.
pub open spec fn called_off(events: Seq<EventView>) -> bool {
    events.len() > 0 && events.last() is Cancelled
}

proof fn lemma_grows(
    x: ExchangeView,
    before: Seq<ChunkView>,
    after: ExchangeView,
    more: Seq<ChunkView>,
)
    requires
        fits(x, before, false),
        x.stage !is Closed,
        sound(x, after, more),
    ensures
        fits(after, before + more, false),
{
    let all = before + more;
    lemma_content_of_concat(before, more);
    assert forall|i: int| 0 <= i < all.len() implies #[trigger] shows_no_secret(
        all[i],
        after.api_key,
    ) by {
        if i < before.len() {
            assert(shows_no_secret(before[i], x.api_key));
        } else {
            assert(shows_no_secret(more[i - before.len()], x.api_key));
        }
    }
    if more.len() == 0 {
        assert(all =~= before);
    } else {
        assert(all.last() == more.last());
        assert forall|i: int| 0 <= i < all.len() - 1 implies !is_outcome(#[trigger] all[i]) by {
            if i >= before.len() {
                assert(!is_outcome(more[i - before.len()]));
            } else if i == before.len() - 1 {
                assert(all[i] == before.last());
            } else {
                assert(!is_outcome(before[i]));
            }
        }
    }
    if x.adapter is GeminiInteractions {
        assert(content_of(before) =~= seq![]);
        assert(content_of(all) =~= content_of(more));
    }
}

proof fn lemma_cancelled(x: ExchangeView)
    requires
        holds(x),
    ensures
        stepped(x, EventView::Cancelled) == (
            ExchangeView { stage: StageView::Closed, ..x },
            Seq::<ChunkView>::empty(),
        ),
{
    reveal(stepped);
}

proof fn lemma_run(adapter: Adapter, api_key: Seq<char>, events: Seq<EventView>)
    requires
        possible(super::exchange::opened(adapter, api_key), events),
    ensures
        ({
            let (x, chunks) = run(super::exchange::opened(adapter, api_key), events);
            fits(x, chunks, called_off(events)) && x.adapter == adapter && x.api_key == api_key
        }),
    decreases events.len(),
{
    let opened = super::exchange::opened(adapter, api_key);
    if events.len() == 0 {
        assert(fits(opened, seq![], false));
    } else {
        lemma_run(adapter, api_key, events.drop_last());
        let (x, before) = run(opened, events.drop_last());
        let event = events.last();
        assert(x.stage !is Closed);
        if event is Cancelled {
            lemma_cancelled(x);
            assert(before + Seq::<ChunkView>::empty() =~= before);
        } else {
            lemma_step(x, event);
            let (after, more) = stepped(x, event);
            lemma_grows(x, before, after, more);
        }
    }
}

/// An exchange reports one outcome at most, and nothing behind it. It has reported one when
/// it is closed, unless the task was called off; then it reports none.
pub proof fn law_one_outcome(adapter: Adapter, api_key: Seq<char>, events: Seq<EventView>)
    requires
        possible(super::exchange::opened(adapter, api_key), events),
    ensures
        ({
            let (x, chunks) = run(super::exchange::opened(adapter, api_key), events);
            &&& forall|i: int|
                0 <= i < chunks.len() && is_outcome(#[trigger] chunks[i]) ==> i == chunks.len() - 1
                    && x.stage is Closed
            &&& x.stage is Closed <==> (called_off(events) || (chunks.len() > 0 && is_outcome(
                chunks.last(),
            )))
            &&& called_off(events) ==> forall|i: int|
                0 <= i < chunks.len() ==> !is_outcome(#[trigger] chunks[i])
            &&& x.stage is Closed ==> forall|event: EventView| !#[trigger] x.expects(event)
        }),
{
    lemma_run(adapter, api_key, events);
}

/// The answer that an exchange is done with is all the answer that it reported, piece by
/// piece, and it is not blank.
pub proof fn law_done_is_what_was_reported(
    adapter: Adapter,
    api_key: Seq<char>,
    events: Seq<EventView>,
)
    requires
        possible(super::exchange::opened(adapter, api_key), events),
    ensures
        ({
            let chunks = run(super::exchange::opened(adapter, api_key), events).1;
            forall|i: int|
                0 <= i < chunks.len() && (#[trigger] chunks[i]) is Done ==> chunks[i]->Done_0
                    == content_of(chunks) && text::trim(content_of(chunks)).len() > 0
        }),
{
    lemma_run(adapter, api_key, events);
}

/// No error that an exchange reports shows a URL, nor the key, for every key that cannot be
/// read out of the marks.
pub proof fn law_errors_show_no_secret(adapter: Adapter, api_key: Seq<char>, events: Seq<EventView>)
    requires
        possible(super::exchange::opened(adapter, api_key), events),
    ensures
        ({
            let chunks = run(super::exchange::opened(adapter, api_key), events).1;
            forall|i: int|
                0 <= i < chunks.len() ==> #[trigger] shows_no_secret(chunks[i], api_key)
        }),
{
    lemma_run(adapter, api_key, events);
}

} // verus!
