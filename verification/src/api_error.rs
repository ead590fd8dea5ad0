//! The error value that every fallible operation of the library returns.

use std::collections::HashMap;
use vstd::prelude::*;
use crate::text::{format_int, push_padded_i64};

verus! {

/// An error reported by an API call or by the library itself: an HTTP status
/// code (0 where no response was involved), a message, the response headers
/// and, when there was one, the response body.
#[derive(Debug, Clone)]
pub struct ApiError {
    pub status_code: i32,
    pub message: String,
    pub headers: HashMap<String, Vec<String>>,
    pub response_body: Option<String>,
}

/// The text `ApiError` displays: `API error <status>: <message>`.
pub open spec fn api_error_text(status_code: i32, message: Seq<char>) -> Seq<char> {
    "API error "@ + format_int(status_code as int, 0) + ": "@ + message
}

impl ApiError {
    /// An error with the given status code and message, no headers and no body.
    pub fn new(status_code: i32, message: &str) -> (r: Self)
        ensures
            r.status_code == status_code,
            r.message@ == message@,
            r.headers@ == Map::<String, Vec<String>>::empty(),
            r.response_body is None,
    {
        ApiError {
            status_code,
            message: String::from_str(message),
            headers: HashMap::new(),
            response_body: None,
        }
    }

    /// The same error, with `body` as its response body.
    pub fn with_response_body(self, body: &str) -> (r: Self)
        ensures
            r.status_code == self.status_code,
            r.message == self.message,
            r.headers == self.headers,
            r.response_body matches Some(b) && b@ == body@,
    {
        let mut e = self;
        e.response_body = Some(String::from_str(body));
        e
    }

    /// The same error, with `headers` as its headers.
    pub fn with_headers(self, headers: HashMap<String, Vec<String>>) -> (r: Self)
        ensures
            r.status_code == self.status_code,
            r.message == self.message,
            r.headers == headers,
            r.response_body == self.response_body,
    {
        let mut e = self;
        e.headers = headers;
        e
    }

    /// The text the error displays: `API error <status>: <message>`.
    pub fn to_string(&self) -> (r: String)
        ensures
            r@ == api_error_text(self.status_code, self.message@),
    {
        let mut out = String::from_str("API error ");
        push_padded_i64(&mut out, self.status_code as i64, 0);
        out.append(": ");
        out.append(self.message.as_str());
        out
    }
}

} // verus!
