//! What a handler takes out of a request.

pub mod payload;
pub mod user;
