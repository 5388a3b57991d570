//! What holds of every reply of a model that is asked by text.
use super::exchange::Adapter;
use super::shared::payload::PayloadView;
use crate::json::JsonView;
use crate::text;
use vstd::prelude::*;
use vstd::string::*;

verus! {

broadcast use {vstd::seq_lib::group_seq_properties, vstd::string::group_string_axioms};

/// The pieces of text that the values of a list hold, from the first to the last, one behind
/// the other.
pub open spec fn strung(items: Seq<JsonView>, piece: spec_fn(JsonView) -> Seq<char>) -> Seq<char>
    decreases items.len(),
{
    if items.len() == 0 {
        seq![]
    } else {
        piece(items[0]) + strung(items.skip(1), piece)
    }
}

proof fn lemma_strung(items: Seq<JsonView>, piece: spec_fn(JsonView) -> Seq<char>)
    requires
        items.len() > 0,
    ensures
        strung(items, piece) == strung(items.drop_last(), piece) + piece(items.last()),
    decreases items.len(),
{
    let head = items.drop_last();
    if items.len() == 1 {
        reveal_with_fuel(strung, 2);
        assert(strung(items, piece) =~= strung(head, piece) + piece(items.last()));
    } else {
        lemma_strung(items.skip(1), piece);
        assert(items.skip(1).drop_last() =~= head.skip(1));
        assert(strung(items, piece) =~= strung(head, piece) + piece(items.last()));
    }
}

/// A text that is reported: nothing of it where it is empty.
pub open spec fn some_text(text: Seq<char>) -> Option<Seq<char>> {
    if text == Seq::<char>::empty() {
        None
    } else {
        Some(text)
    }
}

/// The text under a key, or nothing.
pub open spec fn text_under(value: JsonView, key: Seq<char>) -> Seq<char> {
    match value.get(key) {
        Some(JsonView::Text(text)) => text,
        _ => seq![],
    }
}

/// Whether a reply has no error to report.
pub open spec fn without_error(value: JsonView) -> bool {
    value.get("error"@) is None || value.get("error"@) == Some(JsonView::Null)
}

/// What is brought, as a result.
pub open spec fn brings(reasoning: Option<Seq<char>>, content: Option<Seq<char>>) -> Result<
    PayloadView,
    Seq<char>,
> {
    Ok(PayloadView { reasoning, content })
}

/// The text of a part of Gemini's that is marked as a thought.
pub open spec fn gemini_thought(part: JsonView) -> Seq<char> {
    if part.get("thought"@) == Some(JsonView::Bool(true)) {
        text_under(part, "text"@)
    } else {
        seq![]
    }
}

/// The text of a part of Gemini's that is not marked as a thought.
pub open spec fn gemini_answer(part: JsonView) -> Seq<char> {
    if part.get("thought"@) == Some(JsonView::Bool(true)) {
        seq![]
    } else {
        text_under(part, "text"@)
    }
}

proof fn lemma_gemini_parts(parts: Seq<JsonView>)
    ensures
        super::providers::gemini::parts_text(parts, true) == strung(
            parts,
            |part: JsonView| gemini_thought(part),
        ),
        super::providers::gemini::parts_text(parts, false) == strung(
            parts,
            |part: JsonView| gemini_answer(part),
        ),
    decreases parts.len(),
{
    if parts.len() > 0 {
        lemma_gemini_parts(parts.drop_last());
        lemma_strung(parts, |part: JsonView| gemini_thought(part));
        lemma_strung(parts, |part: JsonView| gemini_answer(part));
    }
}

/// Whether Gemini blocks a candidate that finished for this reason.
pub open spec fn is_blocking(reason: Seq<char>) -> bool {
    seq![
        "SAFETY"@,
        "PROHIBITED_CONTENT"@,
        "BLOCKLIST"@,
        "SPII"@,
        "IMAGE_SAFETY"@,
    ].contains(reason)
}

proof fn lemma_blocking(reason: Seq<char>)
    ensures
        is_blocking(reason) == super::providers::gemini::blocks(reason),
{
    let reasons = seq![
        "SAFETY"@,
        "PROHIBITED_CONTENT"@,
        "BLOCKLIST"@,
        "SPII"@,
        "IMAGE_SAFETY"@,
    ];
    assert(reasons[0] == "SAFETY"@ && reasons[1] == "PROHIBITED_CONTENT"@ && reasons[2]
        == "BLOCKLIST"@ && reasons[3] == "SPII"@ && reasons[4] == "IMAGE_SAFETY"@);
}

/// The first candidate of a reply of Gemini's brings the texts of all its parts in their
/// order: those marked as thoughts as thinking, all others as the answer. This does not
/// depend on anything else that the candidate holds, unless it was blocked.
pub proof fn law_gemini_brings_all_parts(
    value: JsonView,
    candidates: Seq<JsonView>,
    parts: Seq<JsonView>,
    unanswered: bool,
)
    requires
        without_error(value),
        !(value.get2("promptFeedback"@, "blockReason"@) matches Some(JsonView::Text(_))),
        value.get("candidates"@) == Some(JsonView::Array(candidates)),
        candidates.len() > 0,
        candidates[0].get("finishReason"@) matches Some(JsonView::Text(reason)) ==> !is_blocking(
            reason,
        ),
        candidates[0].get2("content"@, "parts"@) == Some(JsonView::Array(parts)),
    ensures
        super::exchange::event_reply(Adapter::Gemini, value, unanswered) == brings(
            some_text(strung(parts, |part: JsonView| gemini_thought(part))),
            some_text(strung(parts, |part: JsonView| gemini_answer(part))),
        ),
        super::exchange::whole_reply(Adapter::Gemini, value) == brings(
            some_text(strung(parts, |part: JsonView| gemini_thought(part))),
            some_text(strung(parts, |part: JsonView| gemini_answer(part))),
        ),
{
    lemma_gemini_parts(parts);
    if let Some(JsonView::Text(reason)) = candidates[0].get("finishReason"@) {
        lemma_blocking(reason);
    }
    lemma_empty();
}

proof fn lemma_empty()
    ensures
        forall|text: Seq<char>| #[trigger] text.len() == 0 ==> text == Seq::<char>::empty(),
{
    assert forall|text: Seq<char>| #[trigger] text.len() == 0 implies text == Seq::<
        char,
    >::empty() by {
        assert(text =~= Seq::<char>::empty());
    }
}

/// A reply of Gemini's whose candidate stopped of itself and has one part, not marked as a
/// thought, brings the text of that part as the answer.
pub proof fn law_gemini_brings_the_answer(
    value: JsonView,
    candidates: Seq<JsonView>,
    part: JsonView,
    text: Seq<char>,
    unanswered: bool,
)
    requires
        without_error(value),
        value.get("promptFeedback"@) is None,
        value.get("candidates"@) == Some(JsonView::Array(candidates)),
        candidates.len() > 0,
        candidates[0].get("finishReason"@) == Some(JsonView::Text("STOP"@)),
        candidates[0].get2("content"@, "parts"@) == Some(JsonView::Array(seq![part])),
        part.get("thought"@) is None,
        part.get("text"@) == Some(JsonView::Text(text)),
        text.len() > 0,
    ensures
        super::exchange::event_reply(Adapter::Gemini, value, unanswered) == brings(
            None,
            Some(text),
        ),
        super::exchange::whole_reply(Adapter::Gemini, value) == brings(None, Some(text)),
{
    reveal_strlit("STOP");
    reveal_strlit("SAFETY");
    reveal_strlit("PROHIBITED_CONTENT");
    reveal_strlit("BLOCKLIST");
    reveal_strlit("SPII");
    reveal_strlit("IMAGE_SAFETY");
    lemma_blocking("STOP"@);
    assert("STOP"@.len() == 4 && "STOP"@[1] == 'T' && "SPII"@[1] == 'P');
    assert("SAFETY"@.len() == 6 && "BLOCKLIST"@.len() == 9 && "IMAGE_SAFETY"@.len() == 12);
    assert("PROHIBITED_CONTENT"@.len() == 18);
    law_gemini_brings_all_parts(value, candidates, seq![part], unanswered);
    reveal_with_fuel(strung, 2);
    assert(strung(seq![part], |part: JsonView| gemini_answer(part)) =~= text);
    assert(strung(seq![part], |part: JsonView| gemini_thought(part)) =~= Seq::<char>::empty());
}

/// A reply of Gemini's to a prompt or with a candidate that was blocked is an error that
/// says why.
pub proof fn law_gemini_says_why_it_refuses(
    value: JsonView,
    candidates: Seq<JsonView>,
    reason: Seq<char>,
    unanswered: bool,
)
    requires
        without_error(value),
        value.get2("promptFeedback"@, "blockReason"@) == Some(JsonView::Text(reason)) || (
        !(value.get2("promptFeedback"@, "blockReason"@) matches Some(JsonView::Text(_)))
            && value.get("candidates"@) == Some(JsonView::Array(candidates)) && candidates.len() > 0
            && candidates[0].get("finishReason"@) == Some(JsonView::Text(reason)) && is_blocking(
            reason,
        )),
    ensures
        super::exchange::event_reply(Adapter::Gemini, value, unanswered) == Err::<
            PayloadView,
            Seq<char>,
        >("Gemini 拒绝了该请求: "@ + reason),
        super::exchange::whole_reply(Adapter::Gemini, value) == Err::<PayloadView, Seq<char>>(
            "Gemini 拒绝了该请求: "@ + reason,
        ),
{
    lemma_blocking(reason);
    reveal_strlit("Gemini 拒绝了该请求: ");
    reveal_strlit("Gemini");
    reveal_strlit(" 拒绝了该请求: ");
    assert("Gemini 拒绝了该请求: "@ + reason =~= "Gemini"@ + " 拒绝了该请求: "@ + reason);
}

/// An event of Anthropic's that adds to a block brings what it adds, text as the answer and
/// thinking as thinking; one that starts a block brings what the block starts with; every
/// other event brings nothing.
pub proof fn law_anthropic_brings_each_delta(value: JsonView, unanswered: bool)
    requires
        without_error(value),
    ensures
        ({
            let kind = value.get("type"@);
            let added = value.get2("delta"@, "type"@);
            let r = super::exchange::event_reply(Adapter::Claude, value, unanswered);
            &&& kind == Some(JsonView::Text("content_block_delta"@)) && added == Some(
                JsonView::Text("text_delta"@),
            ) ==> r == brings(None, some_text(text_under(value.get("delta"@)->0, "text"@)))
            &&& kind == Some(JsonView::Text("content_block_delta"@)) && added == Some(
                JsonView::Text("thinking_delta"@),
            ) ==> r == brings(some_text(text_under(value.get("delta"@)->0, "thinking"@)), None)
            &&& kind == Some(JsonView::Text("content_block_start"@)) && value.get(
                "content_block"@,
            ) is Some ==> r == brings(
                some_text(text_under(value.get("content_block"@)->0, "thinking"@)),
                some_text(text_under(value.get("content_block"@)->0, "text"@)),
            )
            &&& kind != Some(JsonView::Text("content_block_delta"@)) && kind != Some(
                JsonView::Text("content_block_start"@),
            ) ==> r == brings(None, None)
        }),
{
    lemma_empty();
    reveal_strlit("content_block_delta");
    reveal_strlit("content_block_start");
    reveal_strlit("text_delta");
    reveal_strlit("thinking_delta");
    assert("content_block_delta"@[14] != "content_block_start"@[14]);
    assert("text_delta"@.len() == 10 && "thinking_delta"@.len() == 14);
}

/// The text of a block of text.
pub open spec fn block_piece(block: JsonView) -> Seq<char> {
    if block.get("type"@) == Some(JsonView::Text("text"@)) {
        text_under(block, "text"@)
    } else {
        seq![]
    }
}

proof fn lemma_blocks(blocks: Seq<JsonView>)
    ensures
        super::providers::claude::blocks_text(blocks) == strung(
            blocks,
            |block: JsonView| block_piece(block),
        ),
    decreases blocks.len(),
{
    if blocks.len() > 0 {
        lemma_blocks(blocks.drop_last());
        lemma_strung(blocks, |block: JsonView| block_piece(block));
    }
}

/// A whole message of Anthropic's brings the texts of all its blocks of text in their order
/// as the answer; one without any text is an error.
pub proof fn law_anthropic_brings_all_blocks(value: JsonView, blocks: Seq<JsonView>)
    requires
        without_error(value),
        value.get("content"@) == Some(JsonView::Array(blocks)),
    ensures
        ({
            let all = strung(blocks, |block: JsonView| block_piece(block));
            let r = super::exchange::whole_reply(Adapter::Claude, value);
            &&& all.len() > 0 ==> r == brings(None, Some(all))
            &&& all.len() == 0 ==> r is Err
        }),
{
    lemma_blocks(blocks);
}

/// A delta of Responses is brought as it is, of the output text as the answer and of the
/// reasoning, or of its summary, as thinking. An event of another type that does not end the
/// response brings nothing, but for the one that completes it.
pub proof fn law_responses_bring_each_delta(
    value: JsonView,
    kind: Seq<char>,
    delta: Seq<char>,
    unanswered: bool,
)
    requires
        without_error(value),
        value.get("type"@) == Some(JsonView::Text(kind)),
        value.get("delta"@) == Some(JsonView::Text(delta)),
    ensures
        ({
            let r = super::exchange::event_reply(Adapter::OpenAiResponses, value, unanswered);
            &&& kind == "response.output_text.delta"@ ==> r == brings(None, some_text(delta))
            &&& kind == "response.reasoning_text.delta"@ || kind
                == "response.reasoning_summary_text.delta"@ ==> r == brings(some_text(delta), None)
            &&& kind == "error"@ || kind == "response.failed"@ || kind == "response.incomplete"@
                ==> r is Err
            &&& kind != "error"@ && kind != "response.failed"@ && kind != "response.incomplete"@
                && kind != "response.completed"@ && kind != "response.output_text.delta"@ && kind
                != "response.reasoning_text.delta"@ && kind
                != "response.reasoning_summary_text.delta"@ ==> r == brings(None, None)
        }),
{
    lemma_empty();
    lemma_response_kinds();
}

proof fn lemma_response_kinds()
    ensures
        "response.output_text.delta"@.len() == 26,
        "response.reasoning_text.delta"@.len() == 29,
        "response.reasoning_summary_text.delta"@.len() == 37,
        "error"@.len() == 5,
        "response.failed"@.len() == 15,
        "response.incomplete"@.len() == 19,
        "response.completed"@.len() == 18,
{
    reveal_strlit("response.output_text.delta");
    reveal_strlit("response.reasoning_text.delta");
    reveal_strlit("response.reasoning_summary_text.delta");
    reveal_strlit("error");
    reveal_strlit("response.failed");
    reveal_strlit("response.incomplete");
    reveal_strlit("response.completed");
}

/// The text of a part of the output.
pub open spec fn output_piece(part: JsonView) -> Seq<char> {
    if part.get("type"@) == Some(JsonView::Text("output_text"@)) {
        text_under(part, "text"@)
    } else {
        seq![]
    }
}

/// The text of an item of the output; an item of reasoning has none.
pub open spec fn item_piece(item: JsonView) -> Seq<char> {
    if item.get("type"@) == Some(JsonView::Text("reasoning"@)) {
        seq![]
    } else {
        match item.get("content"@) {
            Some(JsonView::Array(parts)) => strung(parts, |part: JsonView| output_piece(part)),
            _ => seq![],
        }
    }
}

/// Whether an item of the output is one of reasoning or has a list of parts.
pub open spec fn is_readable(item: JsonView) -> bool {
    ||| item.get("type"@) == Some(JsonView::Text("reasoning"@))
    ||| item.get("content"@) matches Some(JsonView::Array(_))
}

proof fn lemma_output(parts: Seq<JsonView>)
    ensures
        super::providers::openai_responses::output_text(parts) == strung(
            parts,
            |part: JsonView| output_piece(part),
        ),
    decreases parts.len(),
{
    if parts.len() > 0 {
        lemma_output(parts.drop_last());
        lemma_strung(parts, |part: JsonView| output_piece(part));
    }
}

proof fn lemma_items(items: Seq<JsonView>)
    requires
        forall|i: int| 0 <= i < items.len() ==> is_readable(#[trigger] items[i]),
    ensures
        super::providers::openai_responses::items_text(items) == Some(
            strung(items, |item: JsonView| item_piece(item)),
        ),
    decreases items.len(),
{
    if items.len() > 0 {
        let head = items.drop_last();
        assert forall|i: int| 0 <= i < head.len() implies is_readable(#[trigger] head[i]) by {
            assert(head[i] == items[i]);
        }
        lemma_items(head);
        lemma_strung(items, |item: JsonView| item_piece(item));
        assert(is_readable(items[items.len() - 1]));
        if let Some(JsonView::Array(parts)) = items.last().get("content"@) {
            lemma_output(parts);
        }
    }
}

/// A whole reply of Responses brings the output texts of all its items in their order as the
/// answer, and so does the event that completes a response, where no answer came before it.
pub proof fn law_responses_bring_all_items(
    value: JsonView,
    response: JsonView,
    items: Seq<JsonView>,
)
    requires
        response.get("output"@) == Some(JsonView::Array(items)),
        forall|i: int| 0 <= i < items.len() ==> is_readable(#[trigger] items[i]),
        strung(items, |item: JsonView| item_piece(item)).len() > 0,
        response.get("type"@) matches Some(JsonView::Text(kind)) ==> kind != "error"@ && kind
            != "response.failed"@ && kind != "response.incomplete"@,
        response.get("response"@) is None,
        value.get("type"@) == Some(JsonView::Text("response.completed"@)),
        value.get("response"@) == Some(response),
        without_error(value),
    ensures
        ({
            let all = strung(items, |item: JsonView| item_piece(item));
            &&& super::exchange::whole_reply(Adapter::OpenAiResponses, response) == brings(
                None,
                Some(all),
            )
            &&& super::exchange::whole_reply(Adapter::OpenAiResponses, value) == brings(
                None,
                Some(all),
            )
            &&& super::exchange::event_reply(Adapter::OpenAiResponses, value, true) == brings(
                None,
                Some(all),
            )
            &&& super::exchange::event_reply(Adapter::OpenAiResponses, value, false) == brings(
                None,
                None,
            )
        }),
{
    lemma_items(items);
    lemma_response_kinds();
}

/// Whether a value holds a text in a form that Chat Completions has for it: the text itself,
/// an object with it, a list of such parts, or nothing at all.
pub open spec fn is_part(part: JsonView) -> bool {
    match part {
        JsonView::Null | JsonView::Text(_) => true,
        JsonView::Object(_) => {
            &&& part.get("text"@) matches Some(JsonView::Text(_))
            &&& part.get("type"@) matches Some(JsonView::Text(kind)) ==> kind == "text"@ || kind
                == "output_text"@
        },
        _ => false,
    }
}

/// The text of a part.
pub open spec fn part_piece(part: JsonView) -> Seq<char> {
    match part {
        JsonView::Text(text) => text,
        JsonView::Object(_) => text_under(part, "text"@),
        _ => seq![],
    }
}

/// Whether the content of a message holds this text.
pub open spec fn is_content(value: Option<JsonView>, text: Seq<char>) -> bool {
    match value {
        None | Some(JsonView::Null) => text == Seq::<char>::empty(),
        Some(JsonView::Text(content)) => text == content,
        Some(JsonView::Array(parts)) => (forall|i: int|
            0 <= i < parts.len() ==> is_part(#[trigger] parts[i])) && text == strung(
            parts,
            |part: JsonView| part_piece(part),
        ),
        Some(JsonView::Object(entries)) => JsonView::Object(entries).get("text"@) == Some(
            JsonView::Text(text),
        ),
        _ => false,
    }
}

proof fn lemma_parts(parts: Seq<JsonView>)
    requires
        forall|i: int| 0 <= i < parts.len() ==> is_part(#[trigger] parts[i]),
    ensures
        super::providers::openai_chat::parts_text(parts) == Ok::<Seq<char>, Seq<char>>(
            strung(parts, |part: JsonView| part_piece(part)),
        ),
    decreases parts.len(),
{
    if parts.len() > 0 {
        let head = parts.drop_last();
        assert forall|i: int| 0 <= i < head.len() implies is_part(#[trigger] head[i]) by {
            assert(head[i] == parts[i]);
        }
        lemma_parts(head);
        lemma_strung(parts, |part: JsonView| part_piece(part));
        assert(is_part(parts[parts.len() - 1]));
    }
}

proof fn lemma_content(value: Option<JsonView>, text: Seq<char>)
    requires
        is_content(value, text),
    ensures
        super::providers::openai_chat::content_text(value) == Ok::<Option<Seq<char>>, Seq<char>>(
            some_text(text),
        ),
{
    lemma_empty();
    if let Some(JsonView::Array(parts)) = value {
        lemma_parts(parts);
    }
}

/// The first choice of a reply of Chat Completions brings its content as the answer and its
/// reasoning, under either name, as thinking, whole or as what is added.
pub proof fn law_chat_brings_the_first_choice(
    value: JsonView,
    choices: Seq<JsonView>,
    message: JsonView,
    reasoning: Seq<char>,
    content: Seq<char>,
    unanswered: bool,
)
    requires
        value.get("error"@) is None,
        value.get("choices"@) == Some(JsonView::Array(choices)),
        choices.len() > 0,
        message is Object,
        choices[0].get("delta"@) == Some(message) || (!(choices[0].get("delta"@) matches Some(
            JsonView::Object(_),
        )) && choices[0].get("message"@) == Some(message)),
        is_content(message.get("content"@), content),
        message.get("reasoning_content"@) is Some ==> is_content(
            message.get("reasoning_content"@),
            reasoning,
        ),
        message.get("reasoning_content"@) is None ==> is_content(
            message.get("reasoning"@),
            reasoning,
        ),
    ensures
        ({
            let brought = brings(some_text(reasoning), some_text(content));
            &&& super::exchange::event_reply(Adapter::OpenAiChat, value, unanswered) == brought
            &&& super::exchange::whole_reply(Adapter::OpenAiChat, value) == brought
            &&& super::exchange::event_reply(Adapter::OpenAi, value, unanswered) == brought
            &&& super::exchange::whole_reply(Adapter::OpenAi, value) == brought
        }),
{
    lemma_content(message.get("content"@), content);
    if message.get("reasoning_content"@) is Some {
        lemma_content(message.get("reasoning_content"@), reasoning);
    } else {
        lemma_content(message.get("reasoning"@), reasoning);
    }
}

/// A reply of Chat Completions without a choice brings nothing as an event, and is an error
/// where it is the whole reply.
pub proof fn law_chat_needs_a_choice(value: JsonView, unanswered: bool)
    requires
        value.get("error"@) is None,
        value.get("choices"@) matches Some(JsonView::Array(choices)) ==> choices.len() == 0,
    ensures
        super::exchange::event_reply(Adapter::OpenAiChat, value, unanswered) == brings(None, None),
        super::exchange::event_reply(Adapter::OpenAi, value, unanswered) == brings(None, None),
        super::exchange::whole_reply(Adapter::OpenAiChat, value) is Err,
        super::exchange::whole_reply(Adapter::OpenAi, value) is Err,
{
}

/// The text of a step of Gemini Interactions that is marked as thinking.
pub open spec fn step_piece(step: JsonView) -> Seq<char> {
    match step.get("type"@) {
        Some(JsonView::Text(kind)) => if text::contains(kind, "thought"@) || text::contains(
            kind,
            "thinking"@,
        ) {
            text_under(step, "thought"@) + text_under(step, "text"@)
        } else {
            seq![]
        },
        _ => seq![],
    }
}

proof fn lemma_steps(steps: Seq<JsonView>)
    ensures
        super::providers::gemini_interactions::steps_text(steps) == strung(
            steps,
            |step: JsonView| step_piece(step),
        ),
    decreases steps.len(),
{
    if steps.len() > 0 {
        lemma_steps(steps.drop_last());
        lemma_strung(steps, |step: JsonView| step_piece(step));
        let head = super::providers::gemini_interactions::steps_text(steps.drop_last());
        assert(super::providers::gemini_interactions::steps_text(steps) =~= head + step_piece(
            steps.last(),
        ));
    }
}

/// A reply of Gemini Interactions brings its output text as the answer, unless it is blank,
/// and the thoughts of all its steps in their order as thinking.
pub proof fn law_interactions_bring_the_output(
    value: JsonView,
    steps: Seq<JsonView>,
    output: Seq<char>,
    unanswered: bool,
)
    requires
        without_error(value),
        value.get("output_text"@) == Some(JsonView::Text(output)),
        value.get("steps"@) == Some(JsonView::Array(steps)) || (value.get("steps"@) is None
            && steps.len() == 0),
    ensures
        ({
            let brought = brings(
                some_text(strung(steps, |step: JsonView| step_piece(step))),
                if text::trim(output).len() > 0 {
                    Some(output)
                } else {
                    None
                },
            );
            &&& super::exchange::event_reply(Adapter::GeminiInteractions, value, unanswered)
                == brought
            &&& super::exchange::whole_reply(Adapter::GeminiInteractions, value) == brought
        }),
{
    lemma_steps(steps);
    lemma_empty();
}

/// Whether an error says this: as a text, or as an object by its message, or else by its
/// status, or else by its number.
pub open spec fn says(error: JsonView, message: Seq<char>) -> bool {
    ||| error == JsonView::Text(message)
    ||| error.get("message"@) == Some(JsonView::Text(message))
    ||| !(error.get("message"@) matches Some(JsonView::Text(_))) && error.get("status"@) == Some(
        JsonView::Text(message),
    )
    ||| !(error.get("message"@) matches Some(JsonView::Text(_))) && !(error.get(
        "status"@,
    ) matches Some(JsonView::Text(_))) && (error.get("code"@) matches Some(
        JsonView::Number(code),
    ) && code.unsigned matches Some(n) && message == text::decimal(n as nat))
}

/// An error that a service reports comes out as an error that says what the service said,
/// whatever else the reply holds.
pub proof fn law_service_errors_are_errors(
    adapter: Adapter,
    value: JsonView,
    error: JsonView,
    message: Seq<char>,
    unanswered: bool,
)
    requires
        value.get("error"@) == Some(error),
        says(error, message),
    ensures
        !(adapter is OpenAi) ==> super::exchange::event_reply(adapter, value, unanswered) == Err::<
            PayloadView,
            Seq<char>,
        >(super::exchange::label_of(adapter) + " API 返回错误: "@ + message),
        !(adapter is OpenAi) && !(adapter is OpenAiResponses) ==> super::exchange::whole_reply(
            adapter,
            value,
        ) == Err::<PayloadView, Seq<char>>(
            super::exchange::label_of(adapter) + " API 返回错误: "@ + message,
        ),
        adapter is OpenAi ==> super::exchange::event_reply(adapter, value, unanswered) is Err
            && super::exchange::whole_reply(adapter, value) is Err,
        adapter is OpenAi && (error == JsonView::Text(message) || error.get("message"@) == Some(
            JsonView::Text(message),
        )) ==> super::exchange::event_reply(adapter, value, unanswered) == Err::<
            PayloadView,
            Seq<char>,
        >("LLM API 返回错误: "@ + message),
{
    reveal_strlit("LLM API 返回错误: ");
    reveal_strlit("LLM");
    reveal_strlit(" API 返回错误: ");
    assert("LLM API 返回错误: "@ + message =~= "LLM"@ + " API 返回错误: "@ + message);
}

/// The client with an endpoint of its own takes every reply with an error for an error, be it
/// readable or not.
pub proof fn law_own_endpoint_reports_every_error(value: JsonView, unanswered: bool)
    requires
        value.get("error"@) is Some,
    ensures
        super::exchange::event_reply(Adapter::OpenAi, value, unanswered) is Err,
        super::exchange::whole_reply(Adapter::OpenAi, value) is Err,
{
}

/// A response that failed is an error that says what the service says of it, at its own place
/// or in the response; one that is incomplete is an error that says why.
pub proof fn law_responses_say_why_they_end(
    value: JsonView,
    kind: Seq<char>,
    response: JsonView,
    unanswered: bool,
)
    requires
        without_error(value),
        value.get("type"@) == Some(JsonView::Text(kind)),
        kind == "error"@ || kind == "response.failed"@ || kind == "response.incomplete"@,
        value.get("response"@) == Some(response),
    ensures
        ({
            let event = super::exchange::event_reply(Adapter::OpenAiResponses, value, unanswered);
            let whole = super::exchange::whole_reply(Adapter::OpenAiResponses, value);
            &&& event == whole
            &&& event is Err
            &&& forall|error: JsonView, message: Seq<char>|
                response.get("error"@) == Some(error) && #[trigger] says(error, message) ==> event
                    == Err::<PayloadView, Seq<char>>("OpenAI Responses 返回错误: "@ + message)
            &&& without_error(response) ==> match response.get2("incomplete_details"@, "reason"@) {
                Some(JsonView::Text(reason)) => event == Err::<PayloadView, Seq<char>>(
                    "OpenAI Responses 响应未完成: "@ + reason,
                ),
                _ => event == Err::<PayloadView, Seq<char>>(
                    "OpenAI Responses 响应未完成: 未知原因"@,
                ),
            }
        }),
{
    lemma_response_kinds();
    reveal_strlit("OpenAI Responses");
    reveal_strlit(" 返回错误: ");
    reveal_strlit(" 响应未完成: ");
    reveal_strlit("未知原因");
    reveal_strlit("OpenAI Responses 返回错误: ");
    reveal_strlit("OpenAI Responses 响应未完成: ");
    reveal_strlit("OpenAI Responses 响应未完成: 未知原因");
    assert("OpenAI Responses 返回错误: "@ =~= "OpenAI Responses"@ + " 返回错误: "@);
    assert("OpenAI Responses 响应未完成: "@ =~= "OpenAI Responses"@ + " 响应未完成: "@);
    assert("OpenAI Responses 响应未完成: 未知原因"@ =~= "OpenAI Responses"@ + " 响应未完成: "@
        + "未知原因"@);
}

/// Content of Chat Completions that is a number or a truth value is an error, as the answer
/// and as the reasoning, and so is a part of a list that holds no text.
pub proof fn law_chat_refuses_other_content(
    value: JsonView,
    choices: Seq<JsonView>,
    message: JsonView,
    unanswered: bool,
)
    requires
        value.get("choices"@) == Some(JsonView::Array(choices)),
        choices.len() > 0,
        message is Object,
        choices[0].get("delta"@) == Some(message),
        ({
            let content = message.get("content"@);
            let reasoning = message.get("reasoning_content"@);
            ||| content is Some && (content->0 is Number || content->0 is Bool)
            ||| reasoning is Some && (reasoning->0 is Number || reasoning->0 is Bool)
            ||| content matches Some(JsonView::Array(parts)) && parts.len() > 0 && (parts.last()
                is Number || parts.last() is Bool || parts.last() is Array)
        }),
    ensures
        super::exchange::event_reply(Adapter::OpenAiChat, value, unanswered) is Err,
        super::exchange::whole_reply(Adapter::OpenAiChat, value) is Err,
        super::exchange::event_reply(Adapter::OpenAi, value, unanswered) is Err,
        super::exchange::whole_reply(Adapter::OpenAi, value) is Err,
{
}

/// A reply of Gemini's without candidates, or whose first one has no parts, brings nothing.
pub proof fn law_gemini_without_parts_brings_nothing(value: JsonView, unanswered: bool)
    requires
        without_error(value),
        !(value.get2("promptFeedback"@, "blockReason"@) matches Some(JsonView::Text(_))),
        value.get("candidates"@) matches Some(JsonView::Array(candidates)) ==> candidates.len() == 0
            || (!(candidates[0].get("finishReason"@) matches Some(JsonView::Text(_)))
            && !(candidates[0].get2("content"@, "parts"@) matches Some(JsonView::Array(_)))),
    ensures
        super::exchange::event_reply(Adapter::Gemini, value, unanswered) == brings(None, None),
        super::exchange::whole_reply(Adapter::Gemini, value) == brings(None, None),
{
    reveal_with_fuel(super::providers::gemini::parts_text, 2);
}

/// A whole message of Anthropic's without a list of blocks, and a whole response without a
/// list of items, are errors.
pub proof fn law_replies_need_content(value: JsonView)
    requires
        value.get("type"@) is None,
    ensures
        !(value.get("content"@) matches Some(JsonView::Array(_))) ==> super::exchange::whole_reply(
            Adapter::Claude,
            value,
        ) is Err,
        value.get("response"@) is None && !(value.get("output"@) matches Some(JsonView::Array(_)))
            ==> super::exchange::whole_reply(Adapter::OpenAiResponses, value) is Err,
{
}

/// A reply of Gemini Interactions without an output text brings no answer.
pub proof fn law_interactions_without_output_bring_no_answer(value: JsonView, unanswered: bool)
    requires
        without_error(value),
        !(value.get("output_text"@) matches Some(JsonView::Text(_))),
    ensures
        super::exchange::event_reply(Adapter::GeminiInteractions, value, unanswered) matches Ok(
            payload,
        ) && payload.content is None,
        super::exchange::whole_reply(Adapter::GeminiInteractions, value) matches Ok(payload)
            && payload.content is None,
{
}

/// A whole response with an item that is neither one of reasoning nor has a list of parts is
/// an error.
pub proof fn law_unreadable_items_are_errors(value: JsonView, items: Seq<JsonView>, i: int)
    requires
        value.get("output"@) == Some(JsonView::Array(items)),
        value.get("response"@) is None,
        0 <= i < items.len(),
        !is_readable(items[i]),
    ensures
        super::exchange::whole_reply(Adapter::OpenAiResponses, value) is Err,
{
    lemma_unreadable(items, i);
}

proof fn lemma_unreadable(items: Seq<JsonView>, i: int)
    requires
        0 <= i < items.len(),
        !is_readable(items[i]),
    ensures
        super::providers::openai_responses::items_text(items) is None,
    decreases items.len(),
{
    if i < items.len() - 1 {
        lemma_unreadable(items.drop_last(), i);
    }
}

} // verus!
