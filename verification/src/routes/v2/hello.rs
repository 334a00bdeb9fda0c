//! `/api/v2/hello` and `/api/v2/show_hello`: as in version 1, but a query
//! string that names an unknown parameter is refused.

use vstd::prelude::*;
use vstd::string::*;

use crate::errors::ApiError;
use crate::query::{check_query, names_text, opt_str_text, query_unknown_name};
use crate::routes::greeting::{greeting_message, greeting_text, name_or_world};

verus! {

/// The query parameters of `hello`.
pub struct HelloParams {
    pub name: Option<String>,
}

/// The query parameters of `show_hello`; `greeting` is required, and a request
/// without it is refused before its query string is looked at.
pub struct ShowHelloParams {
    pub greeting: Option<String>,
    pub name: Option<String>,
}

/// The parameters that `hello` knows.
pub open spec fn hello_known_keys() -> Seq<Seq<char>> {
    seq!["name"@]
}

/// The parameters that `show_hello` knows.
pub open spec fn show_hello_known_keys() -> Seq<Seq<char>> {
    seq!["greeting"@, "name"@]
}

/// The message of `hello`, unless `query` names a parameter other than `name`:
/// then the error `UnknownQueryParam` with the first such name.
pub fn hello(query: Option<&str>, params: &HelloParams) -> (r: Result<String, ApiError>)
    ensures
        match query_unknown_name(opt_str_text(query), hello_known_keys()) {
            Some(name) => r matches Err(ApiError::UnknownQueryParam(k)) && k@ == name,
            None => r matches Ok(m) && m@ == greeting_text("Hello"@, name_or_world(params.name)),
        },
{
    let known = vec!["name"];
    assert(names_text(known@) =~= hello_known_keys());
    check_query(query, &known)?;
    Ok(greeting_message("Hello", &params.name))
}

/// The message of `show_hello`. Without a greeting, the error
/// `MissingParam("greeting")`; else, where `query` names a parameter other than
/// `greeting` and `name`, the error `UnknownQueryParam` with the first such name.
pub fn show_hello(query: Option<&str>, params: &ShowHelloParams) -> (r: Result<String, ApiError>)
    ensures
        match params.greeting {
            None => r matches Err(ApiError::MissingParam(p)) && p@ == "greeting"@,
            Some(g) => match query_unknown_name(opt_str_text(query), show_hello_known_keys()) {
                Some(name) => r matches Err(ApiError::UnknownQueryParam(k)) && k@ == name,
                None => r matches Ok(m) && m@ == greeting_text(g@, name_or_world(params.name)),
            },
        },
{
    match &params.greeting {
        Some(g) => {
            let known = vec!["greeting", "name"];
            assert(names_text(known@) =~= show_hello_known_keys());
            check_query(query, &known)?;
            Ok(greeting_message(g.as_str(), &params.name))
        },
        None => Err(ApiError::MissingParam(String::from_str("greeting"))),
    }
}

} // verus!
