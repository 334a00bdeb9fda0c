//! Version 1 of the API: unknown query parameters are ignored.

pub mod hello;
