//! `/api/v1/hello` and `/api/v1/show_hello`.

use vstd::prelude::*;
use vstd::string::*;

use crate::errors::ApiError;
use crate::routes::greeting::{greeting_message, greeting_text, name_or_world};

verus! {

/// The query parameters of `hello`.
pub struct HelloParams {
    pub name: Option<String>,
}

/// The query parameters of `show_hello`; `greeting` is required.
pub struct ShowHelloParams {
    pub greeting: Option<String>,
    pub name: Option<String>,
}

/// The message of `hello`: `Hello, {name}!`, greeting the world where there is no name.
pub fn hello(params: &HelloParams) -> (r: Result<String, ApiError>)
    ensures
        r matches Ok(m) && m@ == greeting_text("Hello"@, name_or_world(params.name)),
{
    Ok(greeting_message("Hello", &params.name))
}

/// The message of `show_hello`: `{greeting}, {name}!`; without a greeting,
/// the error `MissingParam("greeting")`.
pub fn show_hello(params: &ShowHelloParams) -> (r: Result<String, ApiError>)
    ensures
        match params.greeting {
            Some(g) => r matches Ok(m) && m@ == greeting_text(g@, name_or_world(params.name)),
            None => r matches Err(ApiError::MissingParam(p)) && p@ == "greeting"@,
        },
{
    match &params.greeting {
        Some(g) => Ok(greeting_message(g.as_str(), &params.name)),
        None => Err(ApiError::MissingParam(String::from_str("greeting"))),
    }
}

} // verus!
