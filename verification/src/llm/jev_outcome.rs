//! What holds of every exchange with JEV, from its request to its end.
use super::jev_exchange::{JevEventView, JevExchangeView, JevStageView, JevWant};
use super::ChunkView;
use crate::text;
use vstd::prelude::*;

verus! {

broadcast use {vstd::seq_lib::group_seq_properties, vstd::string::group_string_axioms};

/// What an exchange has done: where it stands, what it reported, and how long it paused.
#[verifier::ext_equal]
pub struct JevRun {
    pub at: JevExchangeView,
    pub chunks: Seq<ChunkView>,
    pub pauses: Seq<u64>,
}

/// What comes of one event.
#[verifier::opaque]
pub open spec fn stepped(x: JevExchangeView, event: JevEventView) -> JevRun {
    let (at, step) = x.step(event);
    JevRun {
        at,
        chunks: step.chunks,
        pauses: match step.want {
            JevWant::Pause(seconds) => seq![seconds],
            _ => seq![],
        },
    }
}

/// What an exchange has done after the events.
pub open spec fn run(x: JevExchangeView, events: Seq<JevEventView>) -> JevRun
    decreases events.len(),
{
    if events.len() == 0 {
        JevRun { at: x, chunks: seq![], pauses: seq![] }
    } else {
        let before = run(x, events.drop_last());
        let step = stepped(before.at, events.last());
        JevRun {
            at: step.at,
            chunks: before.chunks + step.chunks,
            pauses: before.pauses + step.pauses,
        }
    }
}

/// Whether each event can happen where the exchange stands when it does.
pub open spec fn possible(x: JevExchangeView, events: Seq<JevEventView>) -> bool
    decreases events.len(),
{
    events.len() == 0 || (possible(x, events.drop_last()) && run(x, events.drop_last()).at.expects(
        events.last(),
    ))
}

/// Whether the last event called the task off.
pub open spec fn called_off(events: Seq<JevEventView>) -> bool {
    events.len() > 0 && events.last() is Cancelled
}

/// Whether a chunk, if it is the answer, is the number of an option.
pub open spec fn chooses_an_option(chunk: ChunkView, option_count: usize) -> bool {
    chunk matches ChunkView::Done(answer) ==> exists|index: usize|
        1 <= index <= option_count && answer == #[trigger] text::decimal(index as nat)
}

/// What was reported fits where the exchange stands: nothing as long as it is open, and an
/// outcome at the end of it.
spec fn told(at: JevExchangeView, chunks: Seq<ChunkView>, called_off: bool) -> bool {
    &&& at.wf()
    &&& at.stage !is Closed ==> chunks.len() == 0 && !called_off
    &&& at.stage is Closed && !called_off ==> chunks.len() > 0 && super::outcome::is_outcome(
        chunks.last(),
    )
    &&& called_off ==> chunks.len() == 0 && at.stage is Closed
    &&& forall|i: int|
        0 <= i < chunks.len() - 1 ==> !super::outcome::is_outcome(#[trigger] chunks[i])
    &&& forall|i: int|
        0 <= i < chunks.len() ==> #[trigger] super::outcome::shows_no_secret(chunks[i], at.api_key)
    &&& forall|i: int|
        0 <= i < chunks.len() ==> #[trigger] chooses_an_option(chunks[i], at.option_count)
}

/// Whether no pause is longer than thirty seconds.
pub open spec fn short(pauses: Seq<u64>) -> bool {
    forall|i: int| 0 <= i < pauses.len() ==> #[trigger] pauses[i] <= 30
}

/// What has been done up to here fits the exchange.
spec fn fits(r: JevRun, called_off: bool) -> bool {
    &&& told(r.at, r.chunks, called_off)
    &&& r.pauses.len() == r.at.attempt
    &&& short(r.pauses)
}

/// What a step may do.
spec fn sound(x: JevExchangeView, step: JevRun, called_off: bool) -> bool {
    &&& step.at.api_key == x.api_key
    &&& step.at.option_count == x.option_count
    &&& told(step.at, step.chunks, called_off)
    &&& step.at.attempt == x.attempt + step.pauses.len()
    &&& short(step.pauses)
}

proof fn lemma_failing(x: JevExchangeView, message: Seq<char>)
    requires
        x.wf(),
    ensures
        told(x.failing(message).0, x.failing(message).1.chunks, false),
{
    let chunks = x.failing(message).1.chunks;
    super::shared::http::law_redacted_holds_no_url(message, x.api_key);
    if x.api_key.len() > 0 && super::shared::http::clear_of(x.api_key, "[REDACTED]"@)
        && super::shared::http::clear_of(x.api_key, "[URL REDACTED]"@) {
        super::shared::http::law_redacted_holds_no_key(message, x.api_key);
    }
    assert(super::outcome::shows_no_secret(chunks[0], x.api_key));
}

proof fn lemma_whole(x: JevExchangeView, bytes: Seq<u8>)
    requires
        x.wf(),
    ensures
        told(x.whole(bytes).0, x.whole(bytes).1.chunks, false),
{
    match crate::json::json_of_bytes(bytes) {
        Ok(value) => match super::providers::jev::choice_of(value, x.option_count) {
            Ok(choice) => {},
            Err(message) => {
                lemma_failing(x, message);
            },
        },
        Err(error) => {
            lemma_failing(
                x,
                "解析 JEV JSON 响应失败: "@ + error + "; 响应摘要: "@
                    + super::shared::http::preview(
                    super::shared::stream::lossy(bytes),
                    x.api_key,
                    200,
                ),
            );
        },
    }
}

proof fn lemma_reading(x: JevExchangeView, bytes: Seq<u8>, chunk: Seq<u8>)
    requires
        x.wf(),
    ensures
        told(x.reading(bytes, chunk).0, x.reading(bytes, chunk).1.chunks, false),
{
    lemma_failing(x, super::jev_exchange::too_long());
}

proof fn lemma_settled(x: JevExchangeView)
    requires
        x.wf(),
        x.stage is Settling,
    ensures
        sound(x, stepped(x, JevEventView::Settled), false),
{
    reveal(stepped);
    let choice = x.stage->Settling_0;
    let chunks = x.step(JevEventView::Settled).1.chunks;
    assert(chunks =~= seq![
        ChunkView::Thinking(choice.summary()),
        ChunkView::Done(text::decimal(choice.index as nat)),
    ]);
    assert(chooses_an_option(chunks[0], x.option_count));
    assert(chooses_an_option(chunks[1], x.option_count));
}

proof fn lemma_delay(attempt: nat, retry_after: Option<u64>)
    requires
        attempt < 3,
    ensures
        super::providers::jev::delay_of(attempt, retry_after) <= 30,
{
    vstd::arithmetic::power2::lemma2_to64();
}

#[verifier::spinoff_prover]
proof fn lemma_step(x: JevExchangeView, event: JevEventView)
    requires
        x.wf(),
        x.expects(event),
    ensures
        sound(x, stepped(x, event), event is Cancelled),
{
    reveal(stepped);
    match event {
        JevEventView::Cancelled => {},
        JevEventView::SendFailed(error) => {
            lemma_failing(
                x,
                super::shared::http::transport_text("JEV 请求失败"@, error, x.api_key),
            );
        },
        JevEventView::Head { .. } => {},
        JevEventView::Chunk(Some(chunk)) => {
            lemma_reading(x, x.stage->Body_0, chunk);
        },
        JevEventView::Chunk(None) => {
            lemma_whole(x, x.stage->Body_0);
        },
        JevEventView::ChunkFailed(error) => {
            lemma_failing(
                x,
                super::shared::http::transport_text("读取 JEV 响应失败"@, error, x.api_key),
            );
        },
        JevEventView::ErrorBody(body) => {
            let code = x.stage->Refused_0;
            if super::jev_exchange::is_overload(code) && x.attempt < 3 {
                lemma_delay(x.attempt as nat, x.stage->Refused_1);
            } else {
                lemma_failing(
                    x,
                    super::jev_exchange::refusal_text(code, body, x.attempt, x.api_key),
                );
            }
        },
        JevEventView::ErrorBodyFailed(error) => {
            lemma_failing(
                x,
                super::shared::http::transport_text("读取 JEV 错误响应失败"@, error, x.api_key),
            );
        },
        JevEventView::Waited => {},
        JevEventView::Settled => {
            lemma_settled(x);
        },
    }
}

proof fn lemma_run(api_key: Seq<char>, option_count: usize, events: Seq<JevEventView>)
    requires
        possible(super::jev_exchange::opened(api_key, option_count), events),
    ensures
        fits(run(super::jev_exchange::opened(api_key, option_count), events), called_off(events)),
        run(super::jev_exchange::opened(api_key, option_count), events).at.api_key == api_key,
        run(super::jev_exchange::opened(api_key, option_count), events).at.option_count
            == option_count,
    decreases events.len(),
{
    let opened = super::jev_exchange::opened(api_key, option_count);
    if events.len() > 0 {
        lemma_run(api_key, option_count, events.drop_last());
        let before = run(opened, events.drop_last());
        assert(before.at.stage !is Closed);
        lemma_step(before.at, events.last());
        let step = stepped(before.at, events.last());
        assert(before.chunks + step.chunks =~= step.chunks);
        let pauses = before.pauses + step.pauses;
        assert forall|i: int| 0 <= i < pauses.len() implies #[trigger] pauses[i] <= 30 by {
            if i < before.pauses.len() {
                assert(before.pauses[i] <= 30);
            } else {
                assert(step.pauses[i - before.pauses.len()] <= 30);
            }
        }
        assert(run(opened, events) == (JevRun { at: step.at, chunks: step.chunks, pauses }));
    }
}

/// An exchange with JEV reports one outcome at most, and nothing behind it. It has reported
/// one when it is closed, unless the task was called off; then it reports nothing at all.
pub proof fn law_one_outcome(api_key: Seq<char>, option_count: usize, events: Seq<JevEventView>)
    requires
        possible(super::jev_exchange::opened(api_key, option_count), events),
    ensures
        ({
            let r = run(super::jev_exchange::opened(api_key, option_count), events);
            &&& forall|i: int|
                0 <= i < r.chunks.len() && super::outcome::is_outcome(#[trigger] r.chunks[i]) ==> i
                    == r.chunks.len() - 1 && r.at.stage is Closed
            &&& r.at.stage is Closed && !called_off(events) ==> r.chunks.len() > 0
                && super::outcome::is_outcome(r.chunks.last())
            &&& called_off(events) ==> r.chunks.len() == 0
            &&& r.at.stage is Closed ==> forall|event: JevEventView| !#[trigger] r.at.expects(event)
        }),
{
    lemma_run(api_key, option_count, events);
}

/// The answer that comes of an exchange with JEV is the number of an option.
pub proof fn law_answer_is_an_option(
    api_key: Seq<char>,
    option_count: usize,
    events: Seq<JevEventView>,
)
    requires
        possible(super::jev_exchange::opened(api_key, option_count), events),
    ensures
        ({
            let chunks = run(super::jev_exchange::opened(api_key, option_count), events).chunks;
            forall|i: int|
                0 <= i < chunks.len() ==> #[trigger] chooses_an_option(chunks[i], option_count)
        }),
{
    lemma_run(api_key, option_count, events);
}

/// A request to JEV is sent again three times at most, each time after a pause of thirty
/// seconds at most.
pub proof fn law_pauses_are_few_and_short(
    api_key: Seq<char>,
    option_count: usize,
    events: Seq<JevEventView>,
)
    requires
        possible(super::jev_exchange::opened(api_key, option_count), events),
    ensures
        ({
            let pauses = run(super::jev_exchange::opened(api_key, option_count), events).pauses;
            pauses.len() <= 3 && short(pauses)
        }),
{
    lemma_run(api_key, option_count, events);
}

/// No error that an exchange with JEV reports shows a URL, nor the key, for every key that
/// cannot be read out of the marks.
pub proof fn law_errors_show_no_secret(
    api_key: Seq<char>,
    option_count: usize,
    events: Seq<JevEventView>,
)
    requires
        possible(super::jev_exchange::opened(api_key, option_count), events),
    ensures
        ({
            let chunks = run(super::jev_exchange::opened(api_key, option_count), events).chunks;
            forall|i: int|
                0 <= i < chunks.len() ==> #[trigger] super::outcome::shows_no_secret(
                    chunks[i],
                    api_key,
                )
        }),
{
    lemma_run(api_key, option_count, events);
}

} // verus!
