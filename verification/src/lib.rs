//! Verified core of a small HTTP API: Digest access authentication,
//! query checking and greeting messages.

pub mod text;
pub mod digest_hex;
pub mod errors;
pub mod auth;
pub mod query;
pub mod routes;
pub mod laws;
pub mod text_laws;
