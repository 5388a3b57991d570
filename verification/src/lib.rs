//! The decisions behind a terminal quiz client that asks a language model: the
//! protocols it speaks, the requests it builds, the replies it reads, and what each
//! key does. The terminal, the network and the disk are left to the caller.

pub mod config;
pub mod input;
pub mod json;
pub mod keys;
pub mod llm;
pub mod pages;
pub mod state;
pub mod text;
pub mod views;
