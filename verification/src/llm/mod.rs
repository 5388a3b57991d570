//! Talking to a language model.
use vstd::prelude::*;

pub mod address;
pub mod asking;
pub mod client;
pub mod efforts;
pub mod exchange;
pub mod following;
pub mod formats;
pub mod jev_exchange;
pub mod jev_outcome;
pub mod listing;
pub mod models;
pub mod openai;
pub mod outcome;
pub mod places;
pub mod prompt;
pub mod protocol;
pub mod providers;
pub mod replies;
pub mod request;
pub mod shared;
pub mod url;

pub use client::LlmClient;
pub use protocol::{supports_thinking, Protocol};
pub use request::QuizRequest;

verus! {

/// What an adapter reports while a reply comes in.
#[derive(Debug, PartialEq, Eq)]
pub enum LlmChunk {
    Thinking(String),
    Content(String),
    Done(String),
    Error(String),
}

/// What a chunk holds.
pub enum ChunkView {
    Thinking(Seq<char>),
    Content(Seq<char>),
    Done(Seq<char>),
    Error(Seq<char>),
}

impl View for LlmChunk {
    type V = ChunkView;

    open spec fn view(&self) -> ChunkView {
        match self {
            LlmChunk::Thinking(text) => ChunkView::Thinking(text@),
            LlmChunk::Content(text) => ChunkView::Content(text@),
            LlmChunk::Done(text) => ChunkView::Done(text@),
            LlmChunk::Error(text) => ChunkView::Error(text@),
        }
    }
}

/// What the chunks of a list hold.
pub open spec fn chunk_views(chunks: Seq<LlmChunk>) -> Seq<ChunkView> {
    chunks.map_values(|chunk: LlmChunk| chunk@)
}

} // verus!
