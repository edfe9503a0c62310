use vstd::prelude::*;

use crate::status_code::StatusCode;
use vstd::string::StringExecFns;

verus! {

/// The exact text a response puts on the wire: the status line, a blank
/// line, and the body or nothing.
pub open spec fn spec_serialized(status: StatusCode, body: Option<Seq<char>>) -> Seq<char> {
    "HTTP/1.1 "@ + status.spec_code_chars() + " "@ + status.spec_reason() + "\r\n\r\n"@ + (
    match body {
        Some(b) => b,
        None => Seq::empty(),
    })
}

/// A response: a status code and an optional body, consumed by writing it
/// to the wire.
#[derive(Debug)]
pub struct Response {
    status_code: StatusCode,
    body: Option<String>,
}

impl Response {
    pub closed spec fn spec_status(&self) -> StatusCode {
        self.status_code
    }

    pub closed spec fn spec_body(&self) -> Option<Seq<char>> {
        match self.body {
            Some(b) => Some(b@),
            None => None,
        }
    }

    pub fn new(status_code: StatusCode, body: Option<String>) -> (r: Response)
        ensures
            r.spec_status() == status_code,
            r.spec_body() == (match body {
                Some(b) => Some(b@),
                None => None::<Seq<char>>,
            }),
    {
        Response { status_code, body }
    }

    /// The full text of the response, exactly as it goes on the wire.
    pub fn serialize(&self) -> (r: String)
        ensures
            r@ == spec_serialized(self.spec_status(), self.spec_body()),
    {
        let mut out = String::from_str("HTTP/1.1 ");
        out.append(self.status_code.code_str());
        out.append(" ");
        out.append(self.status_code.reason_phrase());
        out.append("\r\n\r\n");
        match &self.body {
            Some(b) => out.append(b.as_str()),
            None => (),
        }
        proof {
            assert(out@ =~= spec_serialized(self.spec_status(), self.spec_body()));
        }
        out
    }

    /// Serializes the response and hands the text to the sink, surfacing
    /// the sink's own failure, if any, unchanged.
    pub fn send<W: std::io::Write>(&self, stream: &mut W) -> (r: Result<(), std::io::Error>) {
        let text = self.serialize();
        write_str(stream, text.as_str())
    }
}

#[verifier::external_type_specification]
#[verifier::external_body]
pub struct ExIoError(std::io::Error);

/// Relies on std::io::Write::write_all to hand every byte of the text to
/// the sink; the sink alone decides whether that fails.
#[verifier::external_body]
fn write_str<W: std::io::Write>(stream: &mut W, s: &str) -> (r: Result<(), std::io::Error>) {
    stream.write_all(s.as_bytes())
}

} // verus!
