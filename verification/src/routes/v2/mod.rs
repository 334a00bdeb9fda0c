//! Version 2 of the API: unknown query parameters are refused.

pub mod hello;
