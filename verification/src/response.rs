//! The answers the site gives, before they become HTTP responses.
use vstd::prelude::*;
use crate::feed::Format;

verus! {

/// 200 OK.
pub const OK: u16 = 200;
/// 303 See Other.
pub const SEE_OTHER: u16 = 303;
/// 308 Permanent Redirect.
pub const PERMANENT_REDIRECT: u16 = 308;
/// 400 Bad Request.
pub const BAD_REQUEST: u16 = 400;
/// 404 Not Found.
pub const NOT_FOUND: u16 = 404;
/// 500 Internal Server Error.
pub const INTERNAL_SERVER_ERROR: u16 = 500;
/// 502 Bad Gateway.
pub const BAD_GATEWAY: u16 = 502;
/// 503 Service Unavailable.
pub const SERVICE_UNAVAILABLE: u16 = 503;

/// An answer to a request.
#[derive(Debug)]
pub enum Response {
    /// An HTML page.
    Html { status: u16, body: String },
    /// Plain UTF-8 text.
    Plain { status: u16, body: String },
    /// A feed, served with its format's media type and status 200.
    Feed { format: Format, body: String },
    /// A redirect to another location.
    Redirect { status: u16, location: String },
    /// A status without a body.
    Empty { status: u16 },
}

/// How work handed to the BBS ended.
#[derive(Debug)]
pub enum Outcome<T> {
    /// The work finished with this result.
    Done(T),
    /// The BBS could not be reached or refused the request.
    Failed,
    /// The task that did the work failed.
    Crashed,
}

} // verus!
