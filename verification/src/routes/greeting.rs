//! The greeting messages that both API versions answer with.

use vstd::prelude::*;
use vstd::string::*;

use crate::text::push_char;

verus! {

/// `format!("{}, {}!", greeting, name)`.
pub open spec fn greeting_text(greeting: Seq<char>, name: Seq<char>) -> Seq<char> {
    greeting + seq![',', ' '] + name + seq!['!']
}

/// The name to greet: the one given, else `world`.
pub open spec fn name_or_world(name: Option<String>) -> Seq<char> {
    match name {
        Some(n) => n@,
        None => "world"@,
    }
}

/// The message that greets `name`, or the world where there is no name.
pub fn greeting_message(greeting: &str, name: &Option<String>) -> (r: String)
    ensures
        r@ == greeting_text(greeting@, name_or_world(*name)),
{
    let mut m = String::from_str(greeting);
    push_char(&mut m, ',');
    push_char(&mut m, ' ');
    match name {
        Some(n) => m.append(n.as_str()),
        None => m.append("world"),
    }
    push_char(&mut m, '!');
    m
}

} // verus!
