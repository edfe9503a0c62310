use vstd::prelude::*;

use crate::request::{ParseError, Request};
use crate::response::Response;
use crate::status_code::StatusCode;

verus! {

/// The fallback response when a buffer could not be parsed: whatever the
/// error was, status `BadRequest` and no body.
pub fn bad_request_response(_e: &ParseError) -> (r: Response)
    ensures
        r.spec_status() == StatusCode::BadRequest,
        r.spec_body() is None,
{
    Response::new(StatusCode::BadRequest, None)
}

/// The capability the connection loop drives: exactly one of the two
/// operations answers each readable buffer.  `handle_bad_request` may be
/// overridden; its default answers with `bad_request_response`.
pub trait Handler {
    /// The sole business-logic entry point, invoked once per successfully
    /// parsed request.
    fn handle_request(&mut self, request: &Request<'_>) -> Response;

    /// The fallback path, invoked once per buffer that failed to parse.
    fn handle_bad_request(&mut self, e: &ParseError) -> Response {
        bad_request_response(e)
    }
}

/// Parses a buffer and asks the handler for the response: the request path
/// on success, the fallback path on failure.
pub fn handle_buffer<H: Handler>(handler: &mut H, buf: &[u8]) -> Response {
    match Request::try_from(buf) {
        Ok(request) => handler.handle_request(&request),
        Err(e) => handler.handle_bad_request(&e),
    }
}

/// The address a connection loop should listen on.  The loop itself —
/// sockets, reads, writes — stands outside this crate.
pub struct Server {
    addr: String,
}

impl Server {
    pub closed spec fn spec_addr(&self) -> Seq<char> {
        self.addr@
    }

    pub fn new(addr: String) -> (r: Server)
        ensures
            r.spec_addr() == addr@,
    {
        Server { addr }
    }

    /// The address this server was created with.
    pub fn addr(&self) -> (r: &str)
        ensures
            r@ == self.spec_addr(),
    {
        self.addr.as_str()
    }
}

} // verus!
