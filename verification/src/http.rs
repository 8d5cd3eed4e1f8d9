//! HTTP requests as plain values: what to send, and which statuses are a success.
use vstd::prelude::*;

use crate::url::Parameter;

verus! {

/// The method of a request.
#[derive(Debug, Clone, Copy, PartialEq, Eq, Structural)]
pub enum Method {
    Get,
    Post,
}

/// How long a request may take.
#[derive(Debug, Clone, Copy, PartialEq, Eq, Structural)]
pub enum Timeout {
    Unlimited,
    Seconds(u64),
    Milliseconds(u64),
}

/// A request that is to be sent.
#[derive(Debug)]
pub struct HttpCall {
    pub method: Method,
    pub url: String,
    /// Parameters that the sender puts behind the URL, in any order.
    pub query: Vec<Parameter>,
    /// The token of a bearer authorization.
    pub bearer: Option<String>,
    pub timeout: Timeout,
    /// A JSON text.
    pub body: Option<String>,
}

/// The contents of a request.
pub ghost struct HttpCallView {
    pub method: Method,
    pub url: Seq<char>,
    pub query: Seq<(Seq<char>, Seq<char>)>,
    pub bearer: Option<Seq<char>>,
    pub timeout: Timeout,
    pub body: Option<Seq<char>>,
}

impl View for HttpCall {
    type V = HttpCallView;

    open spec fn view(&self) -> HttpCallView {
        HttpCallView {
            method: self.method,
            url: self.url@,
            query: crate::url::parameter_texts(self.query@),
            bearer: crate::text::opt_text(self.bearer),
            timeout: self.timeout,
            body: crate::text::opt_text(self.body),
        }
    }
}

impl HttpCallView {
    /// The content type that the request goes out with: that of its body, if it has
    /// one.
    pub open spec fn content_type(self) -> Option<Seq<char>> {
        match self.body {
            Some(_) => Some("application/json"@),
            None => None,
        }
    }
}

impl HttpCall {
    /// Tells the content type that the request goes out with.
    pub fn content_type(&self) -> (r: Option<&'static str>)
        ensures
            match r {
                Some(t) => self@.content_type() == Some(t@),
                None => self@.content_type() is None,
            },
    {
        match self.body {
            Some(_) => Some("application/json"),
            None => None,
        }
    }
}

/// Whether a number is one that HTTP allows as a status.
pub open spec fn is_status(code: u16) -> bool {
    100 <= code <= 999
}

/// Whether a status says that the request succeeded.
pub open spec fn successful(code: u16) -> bool {
    200 <= code <= 299
}

/// Tests whether a status says that the request succeeded.
pub fn is_success(code: u16) -> (r: bool)
    ensures
        r == successful(code),
{
    200 <= code && code <= 299
}

/// The standard reason phrase of a status, or the placeholder for a status that
/// has none, as `reqwest::StatusCode` prints it behind the number.
pub uninterp spec fn status_reason(code: u16) -> Seq<char>;

/// How a status is printed: its number, a space, its reason.
pub open spec fn status_line(code: u16) -> Seq<char> {
    crate::text::decimal(code as nat) + seq![' '] + status_reason(code)
}

/// Prints a `reqwest::StatusCode`: its number, a space, and the reason phrase that
/// its table of statuses has for the number.
#[verifier::external_body]
pub(crate) fn print_status(code: u16) -> (r: String)
    requires
        is_status(code),
    ensures
        r@ == crate::text::decimal(code as nat) + seq![' '] + status_reason(code),
{
    reqwest::StatusCode::from_u16(code).map(|s| s.to_string()).unwrap_or_default()
}

} // verus!
