//! The request handlers of both API versions.

pub mod v1;
pub mod v2;
pub mod greeting;
