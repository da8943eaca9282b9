//! The error taxonomy.
//!
//! A failed response header or an HTTP status that is no success, whatever is not from
//! 200 to 299, is `NotFound` for 404 and `Http` for anything else; failures of transport
//! and decoding have variants of their own, each with the text of its cause.
use vstd::prelude::*;

use crate::text::{concat, decimal_int, write_i64};

verus! {

/// What can go wrong.
#[derive(Debug)]
pub enum DooverError {
    /// The gRPC channel failed.
    Transport(String),
    /// A gRPC call ended in a status other than success.
    Status(String),
    /// The channel, message, aggregate or subscription does not exist.
    NotFound(String),
    /// Any other failed response.
    Http { code: i32, message: String },
    /// The HTTP transport failed.
    Request(String),
    /// A text is no JSON document.
    Json(String),
    /// A payload does not have the shape that it should.
    InvalidPayload(String),
    /// Anything else.
    Other(String),
}

impl DooverError {
    /// The name of the error's kind.
    pub open spec fn kind(&self) -> Seq<char> {
        match self {
            DooverError::Transport(_) => "TransportError"@,
            DooverError::Status(_) => "StatusError"@,
            DooverError::NotFound(_) => "NotFoundError"@,
            DooverError::Http { .. } => "HTTPError"@,
            DooverError::Request(_) => "RequestError"@,
            DooverError::Json(_) => "JSONError"@,
            DooverError::InvalidPayload(_) => "InvalidPayload"@,
            DooverError::Other(_) => "RuntimeError"@,
        }
    }

    /// The name of the error's kind, for the invocation summary.
    pub fn kind_name(&self) -> (r: &'static str)
        ensures
            r@ == self.kind(),
    {
        match self {
            DooverError::Transport(_) => "TransportError",
            DooverError::Status(_) => "StatusError",
            DooverError::NotFound(_) => "NotFoundError",
            DooverError::Http { .. } => "HTTPError",
            DooverError::Request(_) => "RequestError",
            DooverError::Json(_) => "JSONError",
            DooverError::InvalidPayload(_) => "InvalidPayload",
            DooverError::Other(_) => "RuntimeError",
        }
    }

    /// The text of the error.
    pub open spec fn text(&self) -> Seq<char> {
        match self {
            DooverError::Transport(m) => "gRPC transport error: "@ + m@,
            DooverError::Status(m) => "gRPC status: "@ + m@,
            DooverError::NotFound(m) => "not found: "@ + m@,
            DooverError::Http { code, message } => "agent error "@ + decimal_int(*code as int)
                + ": "@ + message@,
            DooverError::Request(m) => "HTTP request error: "@ + m@,
            DooverError::Json(m) => "JSON error: "@ + m@,
            DooverError::InvalidPayload(m) => "invalid payload: "@ + m@,
            DooverError::Other(m) => m@,
        }
    }

    /// The text of the error.
    pub fn message(&self) -> (r: String)
        ensures
            r@ == self.text(),
    {
        match self {
            DooverError::Transport(m) => concat("gRPC transport error: ", m.as_str()),
            DooverError::Status(m) => concat("gRPC status: ", m.as_str()),
            DooverError::NotFound(m) => concat("not found: ", m.as_str()),
            DooverError::Http { code, message } => {
                let mut r = concat("agent error ", write_i64(*code as i64).as_str());
                r.append(": ");
                r.append(message.as_str());
                r
            },
            DooverError::Request(m) => concat("HTTP request error: ", m.as_str()),
            DooverError::Json(m) => concat("JSON error: ", m.as_str()),
            DooverError::InvalidPayload(m) => concat("invalid payload: ", m.as_str()),
            DooverError::Other(m) => m.clone(),
        }
    }
}

/// Whether the error says that a payload is invalid, for the given reason.
pub open spec fn is_invalid(e: DooverError, reason: Seq<char>) -> bool {
    e matches DooverError::InvalidPayload(m) && m@ == reason
}

/// Whether the error is of no particular kind and has the given text.
pub open spec fn is_other(e: DooverError, text: Seq<char>) -> bool {
    e matches DooverError::Other(m) && m@ == text
}

/// Whether the error says that something does not exist.
pub open spec fn is_not_found(e: DooverError, text: Seq<char>) -> bool {
    e matches DooverError::NotFound(m) && m@ == text
}

/// Whether the error says that a text is no document, for the given reason.
pub open spec fn is_json_error(e: DooverError, reason: Seq<char>) -> bool {
    e matches DooverError::Json(m) && m@ == reason
}

/// The error that a payload is invalid.
pub fn invalid(reason: &str) -> (e: DooverError)
    ensures
        is_invalid(e, reason@),
{
    DooverError::InvalidPayload(reason.to_owned())
}

/// Every error has a kind and says in its text what failed and why.
pub proof fn law_errors_say_what_failed(m: String, code: i32)
    ensures
        DooverError::Transport(m).kind() == "TransportError"@,
        DooverError::Status(m).kind() == "StatusError"@,
        DooverError::NotFound(m).kind() == "NotFoundError"@,
        (DooverError::Http { code, message: m }).kind() == "HTTPError"@,
        DooverError::Request(m).kind() == "RequestError"@,
        DooverError::Json(m).kind() == "JSONError"@,
        DooverError::InvalidPayload(m).kind() == "InvalidPayload"@,
        DooverError::Other(m).kind() == "RuntimeError"@,
        DooverError::Transport(m).text() == "gRPC transport error: "@ + m@,
        DooverError::Status(m).text() == "gRPC status: "@ + m@,
        DooverError::NotFound(m).text() == "not found: "@ + m@,
        (DooverError::Http { code, message: m }).text() == "agent error "@ + decimal_int(
            code as int,
        ) + ": "@ + m@,
        DooverError::Request(m).text() == "HTTP request error: "@ + m@,
        DooverError::Json(m).text() == "JSON error: "@ + m@,
        DooverError::InvalidPayload(m).text() == "invalid payload: "@ + m@,
        DooverError::Other(m).text() == m@,
{
}

} // verus!
