//! What all adapters share.

pub mod auth;
pub mod body;
pub mod errors;
pub mod http;
pub mod payload;
pub mod stream;
