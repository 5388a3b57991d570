//! What one reply of a model brings.
use crate::llm::LlmChunk;
use crate::text;
use vstd::prelude::*;
use vstd::string::*;

verus! {

broadcast use {vstd::seq_lib::group_seq_properties, vstd::string::group_string_axioms};

/// The reasoning and the answer that a reply brings, each where it is not empty.
#[derive(Debug, PartialEq, Eq)]
pub struct ParsedPayload {
    pub reasoning: Option<String>,
    pub content: Option<String>,
}

/// What a payload holds.
#[verifier::ext_equal]
pub struct PayloadView {
    pub reasoning: Option<Seq<char>>,
    pub content: Option<Seq<char>>,
}

impl View for ParsedPayload {
    type V = PayloadView;

    open spec fn view(&self) -> PayloadView {
        PayloadView {
            reasoning: text::opt_text(self.reasoning),
            content: text::opt_text(self.content),
        }
    }
}

/// What the outcome of reading a reply holds.
pub open spec fn reply_view(reply: Result<ParsedPayload, String>) -> Result<
    PayloadView,
    Seq<char>,
> {
    match reply {
        Ok(payload) => Ok(payload@),
        Err(message) => Err(message@),
    }
}

/// A payload that brings nothing.
pub open spec fn nothing() -> PayloadView {
    PayloadView { reasoning: None, content: None }
}

/// A payload that brings an answer.
pub open spec fn answer(content: Option<Seq<char>>) -> PayloadView {
    PayloadView { reasoning: None, content }
}

/// A payload that brings reasoning.
pub open spec fn thought(reasoning: Option<Seq<char>>) -> PayloadView {
    PayloadView { reasoning, content: None }
}

/// A text, where it is not empty.
pub open spec fn filled(text: Seq<char>) -> Option<Seq<char>> {
    if text.len() == 0 {
        None
    } else {
        Some(text)
    }
}

/// A text, where there is one and it is not empty.
pub open spec fn filled_opt(text: Option<Seq<char>>) -> Option<Seq<char>> {
    match text {
        Some(text) => filled(text),
        None => None,
    }
}

/// What a payload adds to the answer.
pub open spec fn added(payload: PayloadView) -> Seq<char> {
    match payload.content {
        Some(content) => content,
        None => seq![],
    }
}

/// What is reported of a payload: its reasoning, then its answer.
pub open spec fn reported(payload: PayloadView) -> Seq<crate::llm::ChunkView> {
    (match payload.reasoning {
        Some(reasoning) => seq![crate::llm::ChunkView::Thinking(reasoning)],
        None => seq![],
    }) + match payload.content {
        Some(content) => seq![crate::llm::ChunkView::Content(content)],
        None => seq![],
    }
}

impl Default for ParsedPayload {
    fn default() -> (payload: Self)
        ensures
            payload@ == nothing(),
    {
        ParsedPayload { reasoning: None, content: None }
    }
}

impl ParsedPayload {
    /// A payload that brings an answer.
    pub fn answer(content: Option<String>) -> (payload: Self)
        ensures
            payload@ == answer(text::opt_text(content)),
    {
        ParsedPayload { reasoning: None, content }
    }

    /// A payload that brings reasoning.
    pub fn thought(reasoning: Option<String>) -> (payload: Self)
        ensures
            payload@ == thought(text::opt_text(reasoning)),
    {
        ParsedPayload { reasoning, content: None }
    }
}

/// A text, where it is not empty.
pub(crate) fn if_filled(text: String) -> (r: Option<String>)
    ensures
        text::opt_text(r) == filled(text@),
{
    if text.as_str().is_empty() {
        None
    } else {
        Some(text)
    }
}

/// A text, where there is one and it is not empty.
pub fn non_empty(text: Option<&str>) -> (r: Option<String>)
    ensures
        text::opt_text(r) == filled_opt(text::opt_str(text)),
{
    match text {
        Some(text) => if_filled(text.to_owned()),
        None => None,
    }
}

/// Appends a chunk.
pub(crate) fn report(chunks: &mut Vec<LlmChunk>, chunk: LlmChunk)
    ensures
        crate::llm::chunk_views(final(chunks)@) == crate::llm::chunk_views(old(chunks)@).push(
            chunk@,
        ),
{
    chunks.push(chunk);
    assert(crate::llm::chunk_views(chunks@) =~= crate::llm::chunk_views(old(chunks)@).push(chunk@));
}

/// Reports what a payload brings, and adds its answer to what came before.
pub fn emit_payload(payload: ParsedPayload, full_content: &mut String, chunks: &mut Vec<LlmChunk>)
    ensures
        final(full_content)@ == old(full_content)@ + added(payload@),
        crate::llm::chunk_views(final(chunks)@) == crate::llm::chunk_views(old(chunks)@)
            + reported(payload@),
{
    if let Some(reasoning) = payload.reasoning {
        report(chunks, LlmChunk::Thinking(reasoning));
    }
    if let Some(content) = payload.content {
        full_content.append(content.as_str());
        report(chunks, LlmChunk::Content(content));
    }
    assert(crate::llm::chunk_views(chunks@) =~= crate::llm::chunk_views(old(chunks)@) + reported(
        payload@,
    ));
    assert(full_content@ =~= old(full_content)@ + added(payload@));
}

} // verus!
