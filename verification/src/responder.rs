//! The error responder: the one place where internal failures collapse
//! into a uniform external surface.
//!
//! Every classified rejection maps to a fixed HTTP status and a minimal
//! opaque body; no internal detail ever reaches the response.  The module
//! also carries the CORS fairing's fixed response headers.

use vstd::prelude::*;
use crate::guards::AuthError;

verus! {

/// The HTTP status a rejection surfaces as.
pub open spec fn spec_status(e: AuthError) -> int {
    match e {
        AuthError::Unauthenticated => 401,
        AuthError::Unauthorized => 403,
        AuthError::InternalError => 500,
    }
}

/// The opaque response body for a rejection: a minimal JSON object naming
/// the classification and nothing else.
pub open spec fn spec_body(e: AuthError) -> Seq<char> {
    match e {
        AuthError::Unauthenticated => "{\"error\": \"Unauthenticated\"}"@,
        AuthError::Unauthorized => "{\"error\": \"Unauthorized\"}"@,
        AuthError::InternalError => "{\"error\": \"InternalError\"}"@,
    }
}

/// The status code for a rejection.
pub fn status_code(e: AuthError) -> (s: u16)
    ensures
        s as int == spec_status(e),
{
    match e {
        AuthError::Unauthenticated => 401,
        AuthError::Unauthorized => 403,
        AuthError::InternalError => 500,
    }
}

/// The opaque body for a rejection.
pub fn error_body(e: AuthError) -> (b: String)
    ensures
        b@ == spec_body(e),
{
    match e {
        AuthError::Unauthenticated => String::from_str("{\"error\": \"Unauthenticated\"}"),
        AuthError::Unauthorized => String::from_str("{\"error\": \"Unauthorized\"}"),
        AuthError::InternalError => String::from_str("{\"error\": \"InternalError\"}"),
    }
}

/// The response for a failure that escaped the guards: an opaque 500 whose
/// body is the constant message `Error`, whatever the failure was.  The
/// caller records the original detail for diagnostics before collapsing it
/// into this, and serialises the message at the edge.
pub fn server_error_response() -> (r: (u16, String))
    ensures
        r.0 == 500,
        r.1@ == "Error"@,
{
    (500, String::from_str("Error"))
}

/// The fairing that appends CORS headers to every response.
pub struct Cors;

impl Cors {
    /// The fixed header set the fairing appends.
    pub fn response_headers(&self) -> (hs: Vec<(String, String)>)
        ensures
            hs@.len() == 4,
            hs@[0].0@ == "Access-Control-Allow-Origin"@ && hs@[0].1@ == "*"@,
            hs@[1].0@ == "Access-Control-Allow-Methods"@
                && hs@[1].1@ == "GET, POST, PUT, DELETE"@,
            hs@[2].0@ == "Access-Control-Allow-Headers"@ && hs@[2].1@ == "*"@,
            hs@[3].0@ == "Access-Control-Allow-Credentials"@ && hs@[3].1@ == "true"@,
    {
        let mut hs: Vec<(String, String)> = Vec::new();
        hs.push((
            String::from_str("Access-Control-Allow-Origin"),
            String::from_str("*"),
        ));
        hs.push((
            String::from_str("Access-Control-Allow-Methods"),
            String::from_str("GET, POST, PUT, DELETE"),
        ));
        hs.push((
            String::from_str("Access-Control-Allow-Headers"),
            String::from_str("*"),
        ));
        hs.push((
            String::from_str("Access-Control-Allow-Credentials"),
            String::from_str("true"),
        ));
        hs
    }
}

} // verus!
