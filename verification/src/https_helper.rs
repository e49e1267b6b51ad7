//! Plain values exchanged with the HTTPS transport.
//!
//! The transport itself (request sending, TLS, redirects) lives outside the
//! library; it hands back status, headers and body as plain values.

use vstd::prelude::*;

verus! {

/// The request methods the ACME client uses.
#[derive(Copy, Clone, Debug)]
pub enum Method {
    Post,
    Get,
    Head,
}

/// A failed HTTPS exchange, as the transport reports it.
#[derive(Clone, Debug)]
pub enum HttpsRequestError {
    /// An I/O failure, with the transport's message.
    Io(String),
    /// The request URL holds no valid DNS name.
    InvalidDnsName,
    /// Any other transport failure, with the transport's message.
    Http(String),
    /// The server answered outside the 2xx range.
    Non2xxStatus { status_code: u16, body: String },
    /// The host could not be determined from the URL.
    UndefinedHost,
}

} // verus!
