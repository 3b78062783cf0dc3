//! The values that cross the library's boundary.

use vstd::prelude::*;

verus! {

/// One captured request, as it is stored in a bin and handed to observers.
#[derive(Clone, Debug)]
pub struct LoggedRequest {
    /// The request's verb, stored verbatim.
    pub method: String,
    /// The request's headers, serialised as one JSON object.
    pub headers: String,
    /// The request's body as text.
    pub body: Option<String>,
    /// When the request was captured, in milliseconds since the Unix epoch.
    pub timestamp: i64,
    /// The identifier assigned to this capture.
    pub request_id: u128,
}

/// The mathematical value of a [`LoggedRequest`].
pub struct LoggedRequestView {
    pub method: Seq<char>,
    pub headers: Seq<char>,
    pub body: Option<Seq<char>>,
    pub timestamp: i64,
    pub request_id: u128,
}

/// The text of an optional string.
pub open spec fn text_of(s: Option<String>) -> Option<Seq<char>> {
    match s {
        Some(t) => Some(t@),
        None => None,
    }
}

impl View for LoggedRequest {
    type V = LoggedRequestView;

    open spec fn view(&self) -> LoggedRequestView {
        LoggedRequestView {
            method: self.method@,
            headers: self.headers@,
            body: text_of(self.body),
            timestamp: self.timestamp,
            request_id: self.request_id,
        }
    }
}

impl LoggedRequest {
    /// A copy with the same value.
    pub fn duplicate(&self) -> (r: LoggedRequest)
        ensures
            r@ == self@,
    {
        let body = match &self.body {
            Some(text) => Some(text.clone()),
            None => None,
        };
        LoggedRequest {
            method: self.method.clone(),
            headers: self.headers.clone(),
            body,
            timestamp: self.timestamp,
            request_id: self.request_id,
        }
    }
}

/// The views of a sequence of captures, in the same order.
pub open spec fn views_of(entries: Seq<LoggedRequest>) -> Seq<LoggedRequestView> {
    entries.map_values(|e: LoggedRequest| e@)
}

/// The answer to a successful bin creation.
#[derive(Clone, Debug)]
pub struct BinResponse {
    /// The new bin's identifier in its canonical text form.
    pub bin_id: String,
}

/// The answer to a health check.
#[derive(Clone, Debug)]
pub struct PingResponse {
    pub ok: bool,
    pub message: String,
}

/// The query of a health check.
#[derive(Clone, Debug)]
pub struct PingQuery {
    /// The message to echo, if the caller sent one.
    pub message: Option<String>,
}

} // verus!
