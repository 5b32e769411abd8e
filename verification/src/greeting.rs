//! The response computed by the healthcheck endpoint: a greeting built
//! from an optional `name` query parameter.

use vstd::prelude::*;
use vstd::string::*;

verus! {

/// The whole-request timeout of the healthcheck service, in seconds of
/// wall clock per request.
pub const REQUEST_TIMEOUT_SECS: u64 = 10;

/// The HTTP status an unhandled request-scoped error is translated to:
/// 408 when the request's timeout elapsed, 500 for anything else.
pub fn error_status(timeout_elapsed: bool) -> (r: u16)
    ensures
        timeout_elapsed ==> r == 408,
        !timeout_elapsed ==> r == 500,
{
    if timeout_elapsed {
        408
    } else {
        500
    }
}

/// The query parameters accepted by the healthcheck endpoint: at most a
/// single optional `name` field.
pub struct Healthcheck {
    pub name: Option<String>,
}

impl Healthcheck {
    /// The name carried by the query, if any, as a sequence of characters.
    pub open spec fn name_view(&self) -> Option<Seq<char>> {
        match self.name {
            Some(n) => Some(n@),
            None => None,
        }
    }
}

/// The name a request asked to be greeted with. Both an absent query and a
/// query without a `name` field yield no name; an empty `name` value is a
/// name like any other.
pub open spec fn requested_name(options: Option<Healthcheck>) -> Option<Seq<char>> {
    match options {
        Some(h) => h.name_view(),
        None => None,
    }
}

/// The body of the response: `Hello, <name>!`, with `world` standing in
/// only when no name was supplied at all.
pub open spec fn response_of(name: Option<Seq<char>>) -> Seq<char> {
    "Hello, "@ + (match name {
        Some(n) => n,
        None => "world"@,
    }) + "!"@
}

/// Handler logic of the healthcheck endpoint. A query that failed to parse
/// is handed in as `None` and greeted as if no parameters were supplied.
pub fn healthcheck(options: Option<Healthcheck>) -> (r: String)
    ensures
        r@ == response_of(requested_name(options)),
{
    let mut out = String::from_str("Hello, ");
    match &options {
        Some(h) => match &h.name {
            Some(n) => out.append(n.as_str()),
            None => out.append("world"),
        },
        None => out.append("world"),
    }
    out.append("!");
    out
}

} // verus!
