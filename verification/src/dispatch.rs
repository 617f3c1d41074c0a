//! The method dispatcher: a stateless, total mapping from a request's
//! method token to a fixed status line and body, ignoring target and
//! headers; and the full server-side turn from a received buffer to the
//! response text to write back.

use vstd::prelude::*;
use vstd::string::*;

use crate::error::ParseError;
use crate::framing::{
    parse_request, parse_request_spec, serialize_response, serialize_response_spec,
};
use crate::text::str_eq;

verus! {

/// The fixed outcome for a method token: its status line and response body.
/// Exactly five tokens are recognized, by exact, case-sensitive match; any
/// other token is not allowed.
pub open spec fn dispatch_spec(method: Seq<char>) -> (Seq<char>, Seq<char>) {
    if method == "OPTIONS"@ {
        ("MVRP/1.0 204 No Content"@, ""@)
    } else if method == "CREATE"@ {
        ("MVRP/1.0 201 Created"@, "Resource created\n"@)
    } else if method == "READ"@ {
        ("MVRP/1.0 200 OK"@, "Resource read\n"@)
    } else if method == "EMIT"@ {
        ("MVRP/1.0 200 OK"@, "Event emitted\n"@)
    } else if method == "BURN"@ {
        ("MVRP/1.0 200 OK"@, "Resource burned\n"@)
    } else {
        ("MVRP/1.0 405 Method Not Allowed"@, "Method not allowed\n"@)
    }
}

/// Every method token outside the five recognized ones maps to the
/// method-not-allowed outcome.
pub proof fn lemma_dispatch_unrecognized(method: Seq<char>)
    requires
        method != "OPTIONS"@,
        method != "CREATE"@,
        method != "READ"@,
        method != "EMIT"@,
        method != "BURN"@,
    ensures
        dispatch_spec(method) == ("MVRP/1.0 405 Method Not Allowed"@, "Method not allowed\n"@),
{
}

/// Maps a method token to its status line and response body.
pub fn dispatch(method: &str) -> (r: (String, String))
    ensures
        (r.0@, r.1@) == dispatch_spec(method@),
{
    if str_eq(method, "OPTIONS") {
        ("MVRP/1.0 204 No Content".to_owned(), "".to_owned())
    } else if str_eq(method, "CREATE") {
        ("MVRP/1.0 201 Created".to_owned(), "Resource created\n".to_owned())
    } else if str_eq(method, "READ") {
        ("MVRP/1.0 200 OK".to_owned(), "Resource read\n".to_owned())
    } else if str_eq(method, "EMIT") {
        ("MVRP/1.0 200 OK".to_owned(), "Event emitted\n".to_owned())
    } else if str_eq(method, "BURN") {
        ("MVRP/1.0 200 OK".to_owned(), "Resource burned\n".to_owned())
    } else {
        ("MVRP/1.0 405 Method Not Allowed".to_owned(), "Method not allowed\n".to_owned())
    }
}

/// One full server-side turn: parses the received buffer, dispatches on the
/// parsed method, and serializes the response.  A framing failure is
/// returned to the caller, which drops the connection.
pub fn respond(buf: &str) -> (r: Result<String, ParseError>)
    ensures
        match (r, parse_request_spec(buf@)) {
            (Ok(out), Ok(req)) => out@ == serialize_response_spec(
                dispatch_spec(req.method).0,
                dispatch_spec(req.method).1,
            ),
            (Err(e), Err(se)) => e == se,
            _ => false,
        },
{
    match parse_request(buf) {
        Ok(req) => {
            let outcome = dispatch(req.method.as_str());
            Ok(serialize_response(outcome.0.as_str(), outcome.1.as_str()))
        },
        Err(e) => Err(e),
    }
}

} // verus!
