//! One adapter for each protocol.

pub mod claude;
pub mod gemini;
pub mod gemini_interactions;
pub mod jev;
pub mod openai_chat;
pub mod openai_responses;
